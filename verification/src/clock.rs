//! The wall clock, read through the embedding's time library.

use vstd::prelude::*;

verus! {

/// Relies on `chrono::Local::now` with the `%Y-%m-%d %H:%M:%S` format: a
/// human-readable timestamp of the moment of the call.  The value depends
/// on the clock, so nothing is promised about it; every function that
/// writes a timestamp into its result takes it as an argument and states
/// the result exactly in terms of that argument.
#[verifier::external_body]
pub(crate) fn now_timestamp() -> String {
    chrono::Local::now().format("%Y-%m-%d %H:%M:%S").to_string()
}

} // verus!
