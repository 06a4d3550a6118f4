use packet::cli::{parse_args_to_connection, Args};
use packet::connect::expand_key_path;
use packet::text::{parse_u16, u16_to_string};

fn args(name: Option<&str>, host: Option<&str>, port: Option<u16>, execute: Option<&str>) -> Args {
    Args {
        name: name.map(|s| s.to_string()),
        host: host.map(|s| s.to_string()),
        port,
        execute: execute.map(|s| s.to_string()),
    }
}

#[test]
fn direct_host_and_port_win() {
    let a = args(Some("R1"), Some("localhost"), Some(5000), Some("telnet other 9999"));
    let c = a.parse_connection().unwrap();
    assert_eq!(c.name, "R1");
    assert_eq!(c.host, "localhost");
    assert_eq!(c.port, 5000);
}

#[test]
fn missing_name_defaults_to_host_port() {
    let c = args(None, Some("10.0.0.1"), Some(23), None).parse_connection().unwrap();
    assert_eq!(c.name, "10.0.0.1:23");
}

#[test]
fn execute_string_telnet_form() {
    let c = Args::parse_execute_command("telnet localhost 5000", None).unwrap();
    assert_eq!(c.host, "localhost");
    assert_eq!(c.port, 5000);
    assert_eq!(c.name, "localhost:5000");
    // the keyword compares after lowercasing
    let c = Args::parse_execute_command("TELNET r1 2001", Some("R1".to_string())).unwrap();
    assert_eq!(c.name, "R1");
    assert_eq!(c.host, "r1");
}

#[test]
fn execute_string_bare_form_and_failures() {
    let c = Args::parse_execute_command("host 2323", None).unwrap();
    assert_eq!(c.host, "host");
    assert_eq!(c.port, 2323);
    assert!(Args::parse_execute_command("telnet host notaport", None).is_none());
    assert!(Args::parse_execute_command("telnet host", None).is_none());
    assert!(Args::parse_execute_command("", None).is_none());
    assert!(Args::parse_execute_command("host 70000", None).is_none());
}

#[test]
fn no_connection_when_nothing_given() {
    assert!(args(Some("R1"), None, None, None).parse_connection().is_none());
    assert!(args(None, Some("h"), None, None).parse_connection().is_none());
}

#[test]
fn raw_args_with_separate_values() {
    let argv: Vec<String> = ["packet", "--name", "R1", "--host", "localhost", "--port", "5000"]
        .iter()
        .map(|s| s.to_string())
        .collect();
    let c = parse_args_to_connection(&argv).unwrap();
    assert_eq!(c.name, "R1");
    assert_eq!(c.host, "localhost");
    assert_eq!(c.port, 5000);
}

#[test]
fn raw_args_with_inline_values() {
    let argv: Vec<String> = ["packet", "--host=10.0.0.2", "--port=2001", "--name=Sw1"]
        .iter()
        .map(|s| s.to_string())
        .collect();
    let c = parse_args_to_connection(&argv).unwrap();
    assert_eq!(c.name, "Sw1");
    assert_eq!(c.host, "10.0.0.2");
    assert_eq!(c.port, 2001);
}

#[test]
fn raw_args_execute_form_and_edge_cases() {
    let argv: Vec<String> = ["packet", "-e", "telnet gns3 5001"].iter().map(|s| s.to_string()).collect();
    let c = parse_args_to_connection(&argv).unwrap();
    assert_eq!(c.host, "gns3");
    assert_eq!(c.port, 5001);

    let argv: Vec<String> = vec!["packet".to_string()];
    assert!(parse_args_to_connection(&argv).is_none());
    let argv: Vec<String> = Vec::new();
    assert!(parse_args_to_connection(&argv).is_none());

    // a bad port value clears the option rather than guessing
    let argv: Vec<String> = ["packet", "--host", "h", "--port", "many"]
        .iter()
        .map(|s| s.to_string())
        .collect();
    assert!(parse_args_to_connection(&argv).is_none());

    // a trailing flag without a value clears what it names
    let argv: Vec<String> = ["packet", "--host", "h", "--port", "23", "--host"]
        .iter()
        .map(|s| s.to_string())
        .collect();
    assert!(parse_args_to_connection(&argv).is_none());
}

#[test]
fn ports_render_and_parse_in_decimal() {
    assert_eq!(u16_to_string(0), "0");
    assert_eq!(u16_to_string(23), "23");
    assert_eq!(u16_to_string(65535), "65535");
    assert_eq!(parse_u16("0"), Some(0));
    assert_eq!(parse_u16("+2323"), Some(2323));
    assert_eq!(parse_u16("65535"), Some(65535));
    assert_eq!(parse_u16("65536"), None);
    assert_eq!(parse_u16(""), None);
    assert_eq!(parse_u16("+"), None);
    assert_eq!(parse_u16("12a"), None);
    assert_eq!(parse_u16("007"), Some(7));
    // matches the standard library's reading of the same strings
    assert_eq!(parse_u16("+80"), "+80".parse::<u16>().ok());
    assert_eq!(parse_u16("-1"), "-1".parse::<u16>().ok());
}

#[test]
fn key_paths_expand_their_home_prefix() {
    assert_eq!(expand_key_path("~/.ssh/id_rsa", "/home/u"), "/home/u/.ssh/id_rsa");
    assert_eq!(expand_key_path("~", "/home/u"), "/home/u");
    assert_eq!(expand_key_path("/etc/key", "/home/u"), "/etc/key");
    assert_eq!(expand_key_path("relative/key", "/home/u"), "relative/key");
}
