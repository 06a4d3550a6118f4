use packet::codec::{process_telnet_data, telnet_filter_bytes};

#[test]
fn plain_text_passes_through() {
    let raw = b"show version\r\n";
    let out = telnet_filter_bytes(raw);
    assert_eq!(out, raw.to_vec());
    assert_eq!(process_telnet_data(raw), "show version\r\n");
}

#[test]
fn iac_iac_yields_literal_255() {
    let raw = [255u8, 255u8];
    let out = telnet_filter_bytes(&raw);
    assert_eq!(out, vec![255u8]);
}

#[test]
fn negotiation_is_dropped() {
    // IAC WILL ECHO, IAC DO SUPPRESS-GO-AHEAD, then payload
    let raw = [255u8, 251, 1, 255, 253, 3, b'o', b'k'];
    let out = telnet_filter_bytes(&raw);
    assert_eq!(out, b"ok".to_vec());
    assert!(!out.contains(&255u8));
}

#[test]
fn subnegotiation_is_dropped_until_se() {
    // IAC SB ... IAC SE brackets are consumed with their contents
    let raw = [b'a', 255u8, 250, 31, 0, 80, 0, 24, 255, 240, b'b'];
    let out = telnet_filter_bytes(&raw);
    assert_eq!(out, b"ab".to_vec());
}

#[test]
fn unterminated_subnegotiation_consumes_rest() {
    let raw = [b'a', 255u8, 250, 31, 0, 80];
    let out = telnet_filter_bytes(&raw);
    assert_eq!(out, b"a".to_vec());
}

#[test]
fn other_commands_take_two_bytes() {
    // IAC NOP and IAC AYT around payload
    let raw = [255u8, 241, b'h', 255, 246, b'i'];
    let out = telnet_filter_bytes(&raw);
    assert_eq!(out, b"hi".to_vec());
}

#[test]
fn truncated_negotiation_ends_input() {
    let raw = [b'x', 255u8, 252];
    let out = telnet_filter_bytes(&raw);
    assert_eq!(out, b"x".to_vec());
}

#[test]
fn trailing_lone_iac_is_dropped() {
    let raw = [b'x', 255u8];
    let out = telnet_filter_bytes(&raw);
    assert_eq!(out, b"x".to_vec());
    assert_eq!(telnet_filter_bytes(&[255u8]), Vec::<u8>::new());
}

#[test]
fn mixed_stream_output_has_no_stray_255() {
    let raw = [
        255u8, 251, 1, b'R', b'o', b'u', b't', b'e', b'r', b'>', 255, 253, 24, b' ', 255, 250, 24,
        1, 255, 240, b'e', b'n',
    ];
    let out = telnet_filter_bytes(&raw);
    assert_eq!(out, b"Router> en".to_vec());
    assert!(!out.contains(&255u8));
}

#[test]
fn invalid_utf8_is_replaced_not_dropped() {
    // a literal IAC IAC pair leaves a 255 data byte, which is not valid
    // UTF-8 alone, so the decoded text carries the replacement character
    let raw = [b'A', 255u8, 255u8];
    let text = process_telnet_data(&raw);
    assert_eq!(text, "A\u{fffd}");
}
