//! Exactly-once session teardown, shared by the lifecycle controller's
//! disconnect and by the reader loop's exit path.
//!
//! Whichever of the two runs first removes the session from its registry
//! and clears its log files; the other finds nothing and changes nothing.
//! The transport-specific shutdown around this — dropping the socket,
//! sending the SSH end-of-stream, flipping the cooperative stop flag —
//! is the embedding process's part, performed outside the registry lock.

use vstd::prelude::*;

use crate::logging::{logs_of, other_logs, LogBook};
use crate::registry::Registry;

verus! {

/// Removes the session from the registry, if still present, and forgets
/// all its log files, returning whether the session was found and the
/// paths of the log files that now need a closing footer.
pub fn end_session(reg: &mut Registry, book: &mut LogBook, session_id: &str) -> (r: (
    bool,
    Vec<String>,
))
    ensures
        r.0 == old(reg).contains_id(session_id@),
        !r.0 ==> *final (reg) == *old(reg),
        final (reg).issued_ids() == old(reg).issued_ids(),
        old(reg).wf() ==> final (reg).wf(),
        old(reg).wf() ==> forall|x: Seq<char>|
            #[trigger] final (reg).contains_id(x) <==> (old(reg).contains_id(x) && x
                != session_id@),
        final (book).logs() == other_logs(old(book).logs(), session_id@),
        old(book).wf() ==> final (book).wf(),
        r.1@.len() == logs_of(old(book).logs(), session_id@).len(),
        forall|k: int|
            0 <= k < r.1@.len() ==> #[trigger] r.1@[k]@ == logs_of(
                old(book).logs(),
                session_id@,
            )[k].path@,
{
    let found = reg.remove(session_id);
    let paths = book.cleanup_session(session_id);
    (found, paths)
}

} // verus!
