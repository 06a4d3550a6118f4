//! Stripping of terminal control sequences before text is persisted to a
//! log file.
//!
//! An escape character followed by `[` opens a control sequence; every
//! character up to and including the first ASCII letter after the `[` is
//! dropped.  An escape character not followed by `[` is dropped by itself.
//! All other characters pass through unchanged.

use vstd::prelude::*;

use crate::text::{chars_to_string, str_chars};

verus! {

/// The escape character that introduces a terminal control sequence.
pub open spec fn esc() -> char {
    '\u{1b}'
}

/// True for ASCII letters, which terminate a control sequence.
pub open spec fn is_ascii_alpha(c: char) -> bool {
    ('a' <= c && c <= 'z') || ('A' <= c && c <= 'Z')
}

/// The text with terminal control sequences removed.
pub open spec fn strip_ansi(s: Seq<char>) -> Seq<char>
    decreases s.len(), 1int,
{
    if s.len() == 0 {
        Seq::empty()
    } else if s[0] == esc() {
        if s.len() >= 2 && s[1] == '[' {
            strip_csi(s.skip(2))
        } else {
            strip_ansi(s.skip(1))
        }
    } else {
        seq![s[0]] + strip_ansi(s.skip(1))
    }
}

/// The remainder of the stripping once a control sequence has opened:
/// characters are dropped until an ASCII letter closes the sequence.
pub open spec fn strip_csi(s: Seq<char>) -> Seq<char>
    decreases s.len(), 0int,
{
    if s.len() == 0 {
        Seq::empty()
    } else if is_ascii_alpha(s[0]) {
        strip_ansi(s.skip(1))
    } else {
        strip_csi(s.skip(1))
    }
}

fn is_ascii_alpha_char(c: char) -> (r: bool)
    ensures
        r == is_ascii_alpha(c),
{
    ('a' <= c && c <= 'z') || ('A' <= c && c <= 'Z')
}

/// Strips terminal control sequences from text, for cleaner log files.
pub fn strip_ansi_codes(text: &str) -> (out: String)
    ensures
        out@ == strip_ansi(text@),
{
    let chars = str_chars(text);
    let n = chars.len();
    let mut out: Vec<char> = Vec::new();
    let mut in_csi = false;
    let mut i: usize = 0;
    proof {
        assert(text@.skip(0) =~= text@);
        assert(Seq::<char>::empty() + strip_ansi(text@) =~= strip_ansi(text@));
    }
    while i < n
        invariant
            n == text@.len(),
            chars@ == text@,
            i <= n,
            !in_csi ==> strip_ansi(text@) == out@ + strip_ansi(text@.skip(i as int)),
            in_csi ==> strip_ansi(text@) == out@ + strip_csi(text@.skip(i as int)),
        decreases n - i,
    {
        let ghost rest = text@.skip(i as int);
        proof {
            assert(forall|k: int| 0 <= k < rest.len() ==> rest[k] == text@[i + k]);
        }
        let c = chars[i];
        if in_csi {
            proof {
                assert(rest.skip(1) =~= text@.skip(i + 1));
            }
            if is_ascii_alpha_char(c) {
                in_csi = false;
            }
            i = i + 1;
        } else if c == '\u{1b}' {
            if i + 1 < n && chars[i + 1] == '[' {
                proof {
                    assert(rest.skip(2) =~= text@.skip(i + 2));
                }
                in_csi = true;
                i = i + 2;
            } else {
                proof {
                    assert(rest.skip(1) =~= text@.skip(i + 1));
                }
                i = i + 1;
            }
        } else {
            proof {
                assert(rest.skip(1) =~= text@.skip(i + 1));
                assert(out@ + (seq![rest[0]] + strip_ansi(rest.skip(1))) =~= out@.push(
                    text@[i as int],
                ) + strip_ansi(text@.skip(i + 1)));
            }
            out.push(c);
            i = i + 1;
        }
    }
    proof {
        assert(text@.skip(n as int) =~= Seq::<char>::empty());
        assert(out@ + Seq::<char>::empty() =~= out@);
    }
    chars_to_string(&out)
}

/// True for text that holds no escape character at all.
pub open spec fn ansi_free(s: Seq<char>) -> bool {
    forall|k: int| 0 <= k < s.len() ==> s[k] != esc()
}

/// Law: stripped text never holds an escape character.
pub proof fn lemma_strip_output_ansi_free(s: Seq<char>)
    ensures
        ansi_free(strip_ansi(s)),
    decreases s.len(), 1int,
{
    if s.len() == 0 {
    } else if s[0] == esc() {
        if s.len() >= 2 && s[1] == '[' {
            lemma_strip_csi_output_ansi_free(s.skip(2));
        } else {
            lemma_strip_output_ansi_free(s.skip(1));
        }
    } else {
        lemma_strip_output_ansi_free(s.skip(1));
        assert(strip_ansi(s) == seq![s[0]] + strip_ansi(s.skip(1)));
        assert forall|k: int| 0 <= k < strip_ansi(s).len() implies strip_ansi(s)[k] != esc() by {
            if k == 0 {
                assert(strip_ansi(s)[0] == s[0]);
            } else {
                assert(strip_ansi(s)[k] == strip_ansi(s.skip(1))[k - 1]);
            }
        }
    }
}

proof fn lemma_strip_csi_output_ansi_free(s: Seq<char>)
    ensures
        ansi_free(strip_csi(s)),
    decreases s.len(), 0int,
{
    if s.len() == 0 {
    } else if is_ascii_alpha(s[0]) {
        lemma_strip_output_ansi_free(s.skip(1));
    } else {
        lemma_strip_csi_output_ansi_free(s.skip(1));
    }
}

/// Law: stripping text already free of control sequences changes nothing.
pub proof fn lemma_strip_identity_on_free(s: Seq<char>)
    requires
        ansi_free(s),
    ensures
        strip_ansi(s) == s,
    decreases s.len(),
{
    if s.len() == 0 {
        assert(strip_ansi(s) =~= s);
    } else {
        assert(s[0] != esc());
        assert(forall|k: int| 0 <= k < s.skip(1).len() ==> s.skip(1)[k] == s[k + 1]);
        lemma_strip_identity_on_free(s.skip(1));
        assert(strip_ansi(s) =~= s);
    }
}

/// Law: stripping is idempotent; a second pass over stripped text is a
/// no-op.
pub proof fn lemma_strip_idempotent(s: Seq<char>)
    ensures
        strip_ansi(strip_ansi(s)) == strip_ansi(s),
{
    lemma_strip_output_ansi_free(s);
    lemma_strip_identity_on_free(strip_ansi(s));
}

} // verus!
