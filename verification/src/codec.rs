//! Telnet protocol codec: a stateless byte-level filter that removes
//! Interpret-As-Command (IAC) sequences from a raw telnet stream and keeps
//! the payload bytes, followed by lossy UTF-8 decoding.
//!
//! The filter walks the buffer once.  An IAC byte followed by a second IAC
//! stands for one literal 255 data byte; an IAC followed by one of the four
//! option-negotiation commands consumes three bytes and emits nothing; an
//! IAC opening a subnegotiation consumes everything up to the IAC SE marker
//! (or the end of the buffer); any other command consumes two bytes, and a
//! command cut off by the end of the buffer emits nothing.  All other bytes
//! pass through unchanged, so no 255 byte ever reaches the output except
//! through a literal IAC IAC pair.

use vstd::prelude::*;

use crate::text::{lossy_decode, lossy_utf8};

verus! {

/// The telnet Interpret-As-Command escape byte.
pub const IAC: u8 = 255;

/// The subnegotiation-end command byte.
pub const SE: u8 = 240;

/// The subnegotiation-begin command byte.
pub const SB: u8 = 250;

/// The first of the four option-negotiation commands (WILL).
pub const WILL: u8 = 251;

/// The last of the four option-negotiation commands (DONT).
pub const DONT: u8 = 254;

/// The payload bytes of a raw telnet buffer: command sequences are
/// consumed, an IAC IAC pair yields one literal 255 byte, and a trailing
/// IAC with nothing after it is dropped like any other truncated command.
pub open spec fn telnet_filter(s: Seq<u8>) -> Seq<u8>
    decreases s.len(), 1int,
{
    if s.len() == 0 {
        Seq::empty()
    } else if s[0] == 255 && s.len() >= 2 {
        if s[1] == 255 {
            seq![255u8] + telnet_filter(s.skip(2))
        } else if 251 <= s[1] && s[1] <= 254 {
            if s.len() >= 3 {
                telnet_filter(s.skip(3))
            } else {
                Seq::empty()
            }
        } else if s[1] == 250 {
            telnet_skip_subneg(s)
        } else {
            telnet_filter(s.skip(2))
        }
    } else if s[0] == 255 {
        Seq::empty()
    } else {
        seq![s[0]] + telnet_filter(s.skip(1))
    }
}

/// The remainder of the filter once a subnegotiation has begun: bytes are
/// dropped until an IAC SE pair, after which filtering resumes.
pub open spec fn telnet_skip_subneg(s: Seq<u8>) -> Seq<u8>
    decreases s.len(), 0int,
{
    if s.len() == 0 {
        Seq::empty()
    } else if s.len() >= 2 && s[0] == 255 && s[1] == 240 {
        telnet_filter(s.skip(2))
    } else {
        telnet_skip_subneg(s.skip(1))
    }
}

/// Removes telnet command sequences from a raw buffer, keeping payload
/// bytes in order.
pub fn telnet_filter_bytes(raw: &[u8]) -> (out: Vec<u8>)
    ensures
        out@ == telnet_filter(raw@),
{
    let n = raw.len();
    let mut out: Vec<u8> = Vec::new();
    let mut i: usize = 0;
    proof {
        assert(raw@.skip(0) =~= raw@);
        assert(Seq::<u8>::empty() + telnet_filter(raw@) =~= telnet_filter(raw@));
    }
    while i < n
        invariant
            n == raw@.len(),
            i <= n,
            telnet_filter(raw@) == out@ + telnet_filter(raw@.skip(i as int)),
        decreases n - i,
    {
        let ghost rest = raw@.skip(i as int);
        proof {
            assert(rest.len() == n - i);
            assert(forall|k: int| 0 <= k < rest.len() ==> rest[k] == raw@[i + k]);
        }
        let b = raw[i];
        if b == IAC && i + 1 < n {
            let cmd = raw[i + 1];
            if cmd == IAC {
                proof {
                    assert(rest.skip(2) =~= raw@.skip(i + 2));
                    assert(out@ + (seq![255u8] + telnet_filter(rest.skip(2))) =~= out@.push(255u8)
                        + telnet_filter(raw@.skip(i + 2)));
                }
                out.push(IAC);
                i = i + 2;
            } else if WILL <= cmd && cmd <= DONT {
                if i + 2 < n {
                    proof {
                        assert(rest.skip(3) =~= raw@.skip(i + 3));
                    }
                    i = i + 3;
                } else {
                    proof {
                        assert(raw@.skip(n as int) =~= Seq::<u8>::empty());
                        assert(out@ + Seq::<u8>::empty() =~= out@);
                    }
                    i = n;
                }
            } else if cmd == SB {
                let mut j: usize = i;
                let mut done = false;
                proof {
                    assert(telnet_filter(rest) == telnet_skip_subneg(rest));
                }
                while j < n && !done
                    invariant
                        n == raw@.len(),
                        i < n,
                        i <= j <= n,
                        done ==> j >= i + 2,
                        !done ==> telnet_filter(raw@) == out@ + telnet_skip_subneg(
                            raw@.skip(j as int),
                        ),
                        done ==> telnet_filter(raw@) == out@ + telnet_filter(raw@.skip(j as int)),
                    decreases n - j,
                {
                    let ghost sub = raw@.skip(j as int);
                    proof {
                        assert(forall|k: int| 0 <= k < sub.len() ==> sub[k] == raw@[j + k]);
                    }
                    if raw[j] == IAC && j + 1 < n && raw[j + 1] == SE {
                        proof {
                            assert(sub.skip(2) =~= raw@.skip(j + 2));
                        }
                        j = j + 2;
                        done = true;
                    } else {
                        proof {
                            assert(sub.skip(1) =~= raw@.skip(j + 1));
                        }
                        j = j + 1;
                    }
                }
                proof {
                    if !done {
                        assert(j == n);
                        assert(raw@.skip(n as int) =~= Seq::<u8>::empty());
                    }
                    assert(j > i);
                }
                i = j;
            } else {
                proof {
                    assert(rest.skip(2) =~= raw@.skip(i + 2));
                }
                i = i + 2;
            }
        } else if b == IAC {
            proof {
                assert(rest.len() == 1);
                assert(raw@.skip(n as int) =~= Seq::<u8>::empty());
                assert(out@ + Seq::<u8>::empty() =~= out@);
            }
            i = n;
        } else {
            proof {
                assert(rest.skip(1) =~= raw@.skip(i + 1));
                assert(out@ + (seq![rest[0]] + telnet_filter(rest.skip(1))) =~= out@.push(raw@[i as int])
                    + telnet_filter(raw@.skip(i + 1)));
            }
            out.push(b);
            i = i + 1;
        }
    }
    proof {
        assert(raw@.skip(n as int) =~= Seq::<u8>::empty());
        assert(out@ + Seq::<u8>::empty() =~= out@);
    }
    out
}

/// True when the filter, walking `s`, consumes a literal IAC IAC pair:
/// the only way it ever emits a 255 byte.
pub open spec fn parses_iac_pair(s: Seq<u8>) -> bool
    decreases s.len(), 1int,
{
    if s.len() == 0 {
        false
    } else if s[0] == 255 && s.len() >= 2 {
        if s[1] == 255 {
            true
        } else if 251 <= s[1] && s[1] <= 254 {
            s.len() >= 3 && parses_iac_pair(s.skip(3))
        } else if s[1] == 250 {
            subneg_parses_iac_pair(s)
        } else {
            parses_iac_pair(s.skip(2))
        }
    } else {
        parses_iac_pair(s.skip(1))
    }
}

/// The subnegotiation-mode continuation of [`parses_iac_pair`].
pub open spec fn subneg_parses_iac_pair(s: Seq<u8>) -> bool
    decreases s.len(), 0int,
{
    if s.len() == 0 {
        false
    } else if s.len() >= 2 && s[0] == 255 && s[1] == 240 {
        parses_iac_pair(s.skip(2))
    } else {
        subneg_parses_iac_pair(s.skip(1))
    }
}

proof fn lemma_filter_iac_sources(s: Seq<u8>)
    ensures
        !parses_iac_pair(s) ==> forall|k: int|
            0 <= k < telnet_filter(s).len() ==> #[trigger] telnet_filter(s)[k] != 255,
    decreases s.len(), 1int,
{
    if !parses_iac_pair(s) {
        if s.len() == 0 {
            assert(telnet_filter(s).len() == 0);
        } else if s[0] == 255 && s.len() >= 2 {
            if s[1] == 255 {
                assert(parses_iac_pair(s));
            } else if 251 <= s[1] && s[1] <= 254 {
                if s.len() >= 3 {
                    lemma_filter_iac_sources(s.skip(3));
                    assert(telnet_filter(s) == telnet_filter(s.skip(3)));
                    assert forall|k: int| 0 <= k < telnet_filter(s).len() implies #[trigger] telnet_filter(
                        s,
                    )[k] != 255 by {
                        assert(telnet_filter(s)[k] == telnet_filter(s.skip(3))[k]);
                    }
                } else {
                    assert(telnet_filter(s).len() == 0);
                }
            } else if s[1] == 250 {
                lemma_subneg_iac_sources(s);
                assert(telnet_filter(s) == telnet_skip_subneg(s));
                assert forall|k: int| 0 <= k < telnet_filter(s).len() implies #[trigger] telnet_filter(
                    s,
                )[k] != 255 by {
                    assert(telnet_filter(s)[k] == telnet_skip_subneg(s)[k]);
                }
            } else {
                lemma_filter_iac_sources(s.skip(2));
                assert forall|k: int| 0 <= k < telnet_filter(s).len() implies #[trigger] telnet_filter(
                    s,
                )[k] != 255 by {
                    assert(telnet_filter(s)[k] == telnet_filter(s.skip(2))[k]);
                }
            }
        } else if s[0] == 255 {
            assert(telnet_filter(s).len() == 0);
        } else {
            lemma_filter_iac_sources(s.skip(1));
            assert(telnet_filter(s) == seq![s[0]] + telnet_filter(s.skip(1)));
            assert forall|k: int| 0 <= k < telnet_filter(s).len() implies #[trigger] telnet_filter(
                s,
            )[k] != 255 by {
                if k == 0 {
                    assert(telnet_filter(s)[0] == s[0]);
                } else {
                    assert(telnet_filter(s)[k] == telnet_filter(s.skip(1))[k - 1]);
                }
            }
        }
    }
}

proof fn lemma_subneg_iac_sources(s: Seq<u8>)
    ensures
        !subneg_parses_iac_pair(s) ==> forall|k: int|
            0 <= k < telnet_skip_subneg(s).len() ==> #[trigger] telnet_skip_subneg(s)[k] != 255,
    decreases s.len(), 0int,
{
    if !subneg_parses_iac_pair(s) {
        if s.len() == 0 {
            assert(telnet_skip_subneg(s).len() == 0);
        } else if s.len() >= 2 && s[0] == 255 && s[1] == 240 {
            lemma_filter_iac_sources(s.skip(2));
            assert forall|k: int| 0 <= k < telnet_skip_subneg(s).len() implies #[trigger] telnet_skip_subneg(
                s,
            )[k] != 255 by {
                assert(telnet_skip_subneg(s)[k] == telnet_filter(s.skip(2))[k]);
            }
        } else {
            lemma_subneg_iac_sources(s.skip(1));
            assert forall|k: int| 0 <= k < telnet_skip_subneg(s).len() implies #[trigger] telnet_skip_subneg(
                s,
            )[k] != 255 by {
                assert(telnet_skip_subneg(s)[k] == telnet_skip_subneg(s.skip(1))[k]);
            }
        }
    }
}

/// Law: for every telnet input, the codec's byte output contains no 255
/// byte unless the input held a literal IAC IAC pair that the filter
/// consumed.
pub proof fn lemma_codec_no_stray_iac(s: Seq<u8>)
    ensures
        telnet_filter(s).contains(255) ==> parses_iac_pair(s),
{
    lemma_filter_iac_sources(s);
    if telnet_filter(s).contains(255) && !parses_iac_pair(s) {
        let k = choose|k: int| 0 <= k < telnet_filter(s).len() && telnet_filter(s)[k] == 255;
        assert(telnet_filter(s)[k] != 255);
    }
}

/// Law: a literal IAC IAC pair at the head of the input produces exactly
/// one 255 data byte, and filtering continues after the pair.
pub proof fn lemma_iac_pair_literal(t: Seq<u8>)
    ensures
        telnet_filter(seq![255u8, 255u8] + t) == seq![255u8] + telnet_filter(t),
{
    let s = seq![255u8, 255u8] + t;
    assert(s[0] == 255 && s[1] == 255);
    assert(s.skip(2) =~= t);
}

/// Law: a buffer with no IAC byte at all passes through the filter
/// unchanged.
pub proof fn lemma_filter_plain_identity(s: Seq<u8>)
    requires
        forall|k: int| 0 <= k < s.len() ==> s[k] != 255,
    ensures
        telnet_filter(s) == s,
    decreases s.len(),
{
    if s.len() == 0 {
        assert(telnet_filter(s) =~= s);
    } else {
        assert(s[0] != 255);
        lemma_filter_plain_identity(s.skip(1));
        assert(telnet_filter(s) =~= s);
    }
}

/// Decodes a raw telnet buffer into text: command sequences are removed
/// and the remaining payload bytes are decoded as UTF-8, lossily.
pub fn process_telnet_data(raw: &[u8]) -> (data: String)
    ensures
        data@ == lossy_decode(telnet_filter(raw@)),
{
    let filtered = telnet_filter_bytes(raw);
    lossy_utf8(filtered.as_slice())
}

} // verus!
