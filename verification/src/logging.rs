//! The log sink's bookkeeping: which log files are active for which
//! session, what is written into them, and in what order.
//!
//! A session may log to several files at once, keyed by resolved path;
//! re-adding the same path is rejected with a message, not an error.
//! Every chunk of a session's decoded output is offered to all of the
//! session's active files with terminal control sequences stripped first;
//! starting and stopping write bracketed header and footer lines around
//! the body.  The embedding process opens, writes and closes the actual
//! files; these functions decide what is written and keep the books.

use vstd::prelude::*;

use crate::ansi::{strip_ansi, strip_ansi_codes};
use vstd::seq_lib::group_seq_lib_default;
use vstd::string::StringExecFns;

verus! {

/// One row of the active-log listing shown to the display surface.
pub struct LogFileInfo {
    /// The resolved path of the log file.
    pub path: String,
    /// When logging to it started, as a human-readable timestamp.
    pub started_at: String,
}

/// The reported outcome of a start or stop request.
pub struct LoggingResult {
    /// Whether the request changed anything.
    pub success: bool,
    /// A human-readable description of what happened.
    pub message: String,
}

/// One active log file of one session.
pub struct ActiveLog {
    /// The session whose output the file receives.
    pub session_id: String,
    /// The resolved path the file was opened under.
    pub path: String,
    /// When logging started, as a human-readable timestamp.
    pub started_at: String,
}

/// The active log files of a session: those rows that carry its
/// identifier, in start order.
pub open spec fn logs_of(s: Seq<ActiveLog>, sid: Seq<char>) -> Seq<ActiveLog> {
    s.filter(|e: ActiveLog| e.session_id@ == sid)
}

/// The rows that do not carry the identifier, in order.
pub open spec fn other_logs(s: Seq<ActiveLog>, sid: Seq<char>) -> Seq<ActiveLog> {
    s.filter(|e: ActiveLog| e.session_id@ != sid)
}

/// The books of the log sink: every active log file of every session.
pub struct LogBook {
    entries: Vec<ActiveLog>,
}

/// One write the log sink owes: this text, already stripped of control
/// sequences, appended to the file at this path and flushed at once.
pub struct LogWrite {
    /// The resolved path of the file to append to.
    pub path: String,
    /// The stripped text to append.
    pub data: String,
}

impl LogBook {
    /// All active rows, in start order.
    pub closed spec fn logs(&self) -> Seq<ActiveLog> {
        self.entries@
    }

    /// True when the session is logging to the path.
    pub open spec fn active(&self, sid: Seq<char>, path: Seq<char>) -> bool {
        exists|i: int|
            0 <= i < self.logs().len() && self.logs()[i].session_id@ == sid && self.logs()[i].path@
                == path
    }

    /// True when the session has any active log file.
    pub open spec fn has_session(&self, sid: Seq<char>) -> bool {
        exists|i: int| 0 <= i < self.logs().len() && self.logs()[i].session_id@ == sid
    }

    /// Well-formedness: no session logs to the same path twice.
    pub open spec fn wf(&self) -> bool {
        forall|i: int, j: int|
            0 <= i < j < self.logs().len() ==> !(self.logs()[i].session_id@
                == self.logs()[j].session_id@ && self.logs()[i].path@ == self.logs()[j].path@)
    }

    /// An empty book.
    pub fn new() -> (r: LogBook)
        ensures
            r.wf(),
            r.logs() == Seq::<ActiveLog>::empty(),
    {
        LogBook { entries: Vec::new() }
    }

    fn find_index(&self, session_id: &str, path: &str) -> (r: Option<usize>)
        ensures
            match r {
                Some(i) => i < self.logs().len() && self.logs()[i as int].session_id@ == session_id@
                    && self.logs()[i as int].path@ == path@,
                None => !self.active(session_id@, path@),
            },
    {
        let n = self.entries.len();
        let mut i: usize = 0;
        while i < n
            invariant
                n == self.logs().len(),
                i <= n,
                forall|k: int|
                    0 <= k < i ==> !(self.logs()[k].session_id@ == session_id@
                        && self.logs()[k].path@ == path@),
            decreases n - i,
        {
            if crate::text::str_eq(self.entries[i].session_id.as_str(), session_id)
                && crate::text::str_eq(self.entries[i].path.as_str(), path) {
                return Some(i);
            }
            i = i + 1;
        }
        None
    }

    /// True when the session is logging to the path.
    pub fn is_active(&self, session_id: &str, path: &str) -> (b: bool)
        ensures
            b == self.active(session_id@, path@),
    {
        match self.find_index(session_id, path) {
            Some(_) => true,
            None => false,
        }
    }

    /// Records that the session now logs to the path, unless it already
    /// does; reports which, naming the filename the caller used.  The
    /// caller opens the file and writes [`log_started_line`] before output
    /// flows.
    pub fn start_log(&mut self, session_id: &str, filename: &str, path: &str, started_at: &str) -> (
        r: LoggingResult)
        ensures
            old(self).active(session_id@, path@) ==> {
                &&& *final (self) == *old(self)
                &&& !r.success
                &&& r.message@ == already_logging_message(filename@)
            },
            !old(self).active(session_id@, path@) ==> {
                &&& r.success
                &&& r.message@ == started_logging_message(filename@)
                &&& final (self).logs().len() == old(self).logs().len() + 1
                &&& final (self).logs().take(old(self).logs().len() as int) == old(self).logs()
                &&& final (self).logs().last().session_id@ == session_id@
                &&& final (self).logs().last().path@ == path@
                &&& final (self).logs().last().started_at@ == started_at@
                &&& forall|s: Seq<char>, p: Seq<char>|
                    #[trigger] final (self).active(s, p) <==> (old(self).active(s, p) || (s
                        == session_id@ && p == path@))
            },
            old(self).wf() ==> final (self).wf(),
    {
        match self.find_index(session_id, path) {
            Some(_) => {
                let mut m = String::new();
                m.append("Already logging to '");
                m.append(filename);
                m.append("'");
                LoggingResult { success: false, message: m }
            },
            None => {
                let entry = ActiveLog {
                    session_id: session_id.to_owned(),
                    path: path.to_owned(),
                    started_at: started_at.to_owned(),
                };
                let ghost old_logs = self.entries@;
                self.entries.push(entry);
                proof {
                    assert(self.entries@.take(old_logs.len() as int) =~= old_logs);
                    assert forall|s: Seq<char>, p: Seq<char>|
                        #[trigger] self.active(s, p) <==> (old(self).active(s, p) || (s
                            == session_id@ && p == path@)) by {
                        if self.active(s, p) {
                            let k = choose|k: int|
                                0 <= k < self.entries@.len() && self.entries@[k].session_id@ == s
                                    && self.entries@[k].path@ == p;
                            if k < old_logs.len() {
                                assert(old(self).logs()[k].session_id@ == s && old(
                                    self,
                                ).logs()[k].path@ == p);
                            }
                        }
                        if old(self).active(s, p) {
                            let k = choose|k: int|
                                0 <= k < old_logs.len() && old_logs[k].session_id@ == s
                                    && old_logs[k].path@ == p;
                            assert(self.entries@[k].session_id@ == s && self.entries@[k].path@
                                == p);
                        }
                        if s == session_id@ && p == path@ {
                            assert(self.entries@.last().session_id@ == s);
                        }
                    }
                }
                let mut m = String::new();
                m.append("Started logging to '");
                m.append(filename);
                m.append("'");
                LoggingResult { success: true, message: m }
            },
        }
    }

    /// Forgets that the session logs to the path, reporting whether it
    /// did; the caller writes [`log_ended_line`] and closes the file.
    /// The three outcomes carry the three messages the display knows.
    pub fn stop_log(&mut self, session_id: &str, filename: &str, path: &str) -> (r: LoggingResult)
        ensures
            old(self).active(session_id@, path@) ==> {
                &&& r.success
                &&& r.message@ == stopped_logging_message(filename@)
                &&& final (self).logs().len() == old(self).logs().len() - 1
                &&& (old(self).wf() ==> forall|s: Seq<char>, p: Seq<char>|
                    #[trigger] final (self).active(s, p) <==> (old(self).active(s, p) && !(s
                        == session_id@ && p == path@)))
            },
            !old(self).active(session_id@, path@) && old(self).has_session(session_id@) ==> {
                &&& *final (self) == *old(self)
                &&& !r.success
                &&& r.message@ == not_logging_message(filename@)
            },
            !old(self).has_session(session_id@) ==> {
                &&& *final (self) == *old(self)
                &&& !r.success
                &&& r.message@ == no_logs_message()
            },
            old(self).wf() ==> final (self).wf(),
    {
        match self.find_index(session_id, path) {
            Some(i) => {
                let ghost old_logs = self.entries@;
                self.entries.remove(i);
                proof {
                    assert(self.entries@ =~= old_logs.remove(i as int));
                    assert(forall|k: int| 0 <= k < i ==> self.entries@[k] == old_logs[k]);
                    assert(forall|k: int|
                        i <= k < self.entries@.len() ==> self.entries@[k] == old_logs[k + 1]);
                    if old(self).wf() {
                        assert forall|s: Seq<char>, p: Seq<char>|
                            #[trigger] self.active(s, p) <==> (old(self).active(s, p) && !(s
                                == session_id@ && p == path@)) by {
                            if self.active(s, p) {
                                let k = choose|k: int|
                                    0 <= k < self.entries@.len() && self.entries@[k].session_id@
                                        == s && self.entries@[k].path@ == p;
                                if k < i {
                                    assert(old_logs[k].session_id@ == s && old_logs[k].path@ == p);
                                } else {
                                    assert(old_logs[k + 1].session_id@ == s && old_logs[k + 1].path@
                                        == p);
                                }
                            }
                            if old(self).active(s, p) && !(s == session_id@ && p == path@) {
                                let k = choose|k: int|
                                    0 <= k < old_logs.len() && old_logs[k].session_id@ == s
                                        && old_logs[k].path@ == p;
                                assert(k != i);
                                if k < i {
                                    assert(self.entries@[k].session_id@ == s);
                                } else {
                                    assert(self.entries@[k - 1].session_id@ == s
                                        && self.entries@[k - 1].path@ == p);
                                }
                            }
                        }
                    }
                }
                let mut m = String::new();
                m.append("Stopped logging to '");
                m.append(filename);
                m.append("'");
                LoggingResult { success: true, message: m }
            },
            None => {
                let has = self.has_any(session_id);
                let mut m = String::new();
                if has {
                    m.append("Not currently logging to '");
                    m.append(filename);
                    m.append("'");
                } else {
                    m.append("No active logs for this session");
                }
                LoggingResult { success: false, message: m }
            },
        }
    }

    fn has_any(&self, session_id: &str) -> (b: bool)
        ensures
            b == self.has_session(session_id@),
    {
        let n = self.entries.len();
        let mut i: usize = 0;
        while i < n
            invariant
                n == self.logs().len(),
                i <= n,
                forall|k: int| 0 <= k < i ==> self.logs()[k].session_id@ != session_id@,
            decreases n - i,
        {
            if crate::text::str_eq(self.entries[i].session_id.as_str(), session_id) {
                return true;
            }
            i = i + 1;
        }
        false
    }

    /// The listing of the session's active log files, in start order.
    pub fn list_session_logs(&self, session_id: &str) -> (v: Vec<LogFileInfo>)
        ensures
            v@.len() == logs_of(self.logs(), session_id@).len(),
            forall|k: int|
                0 <= k < v@.len() ==> #[trigger] v@[k].path@ == logs_of(
                    self.logs(),
                    session_id@,
                )[k].path@ && v@[k].started_at@ == logs_of(self.logs(), session_id@)[k].started_at@,
    {
        let n = self.entries.len();
        let mut v: Vec<LogFileInfo> = Vec::new();
        let mut i: usize = 0;
        proof {
            broadcast use group_seq_lib_default;

            assert(self.logs().take(0) =~= Seq::<ActiveLog>::empty());
            reveal(Seq::filter);
        }
        while i < n
            invariant
                n == self.logs().len(),
                i <= n,
                v@.len() == logs_of(self.logs().take(i as int), session_id@).len(),
                forall|k: int|
                    0 <= k < v@.len() ==> #[trigger] v@[k].path@ == logs_of(
                        self.logs().take(i as int),
                        session_id@,
                    )[k].path@ && v@[k].started_at@ == logs_of(
                        self.logs().take(i as int),
                        session_id@,
                    )[k].started_at@,
            decreases n - i,
        {
            let ghost pre = self.logs().take(i as int);
            let ghost post = self.logs().take(i + 1 as int);
            proof {
                reveal(Seq::filter);
                assert(post.drop_last() =~= pre);
                assert(post.last() == self.logs()[i as int]);
            }
            let e = &self.entries[i];
            if crate::text::str_eq(e.session_id.as_str(), session_id) {
                let info = LogFileInfo { path: e.path.clone(), started_at: e.started_at.clone() };
                v.push(info);
                proof {
                    assert(logs_of(post, session_id@) == logs_of(pre, session_id@).push(
                        self.logs()[i as int],
                    ));
                }
            } else {
                proof {
                    assert(logs_of(post, session_id@) == logs_of(pre, session_id@));
                }
            }
            i = i + 1;
        }
        proof {
            assert(self.logs().take(n as int) =~= self.logs());
        }
        v
    }

    /// The writes a chunk of the session's decoded output gives rise to:
    /// one for each of the session's active files, in start order, each
    /// carrying the chunk with control sequences stripped.
    pub fn log_writes(&self, session_id: &str, data: &str) -> (v: Vec<LogWrite>)
        ensures
            v@.len() == logs_of(self.logs(), session_id@).len(),
            forall|k: int|
                0 <= k < v@.len() ==> #[trigger] v@[k].path@ == logs_of(
                    self.logs(),
                    session_id@,
                )[k].path@ && v@[k].data@ == strip_ansi(data@),
    {
        let stripped = strip_ansi_codes(data);
        let n = self.entries.len();
        let mut v: Vec<LogWrite> = Vec::new();
        let mut i: usize = 0;
        proof {
            broadcast use group_seq_lib_default;

            assert(self.logs().take(0) =~= Seq::<ActiveLog>::empty());
            reveal(Seq::filter);
        }
        while i < n
            invariant
                n == self.logs().len(),
                i <= n,
                stripped@ == strip_ansi(data@),
                v@.len() == logs_of(self.logs().take(i as int), session_id@).len(),
                forall|k: int|
                    0 <= k < v@.len() ==> #[trigger] v@[k].path@ == logs_of(
                        self.logs().take(i as int),
                        session_id@,
                    )[k].path@ && v@[k].data@ == strip_ansi(data@),
            decreases n - i,
        {
            let ghost pre = self.logs().take(i as int);
            let ghost post = self.logs().take(i + 1 as int);
            proof {
                reveal(Seq::filter);
                assert(post.drop_last() =~= pre);
                assert(post.last() == self.logs()[i as int]);
            }
            let e = &self.entries[i];
            if crate::text::str_eq(e.session_id.as_str(), session_id) {
                let w = LogWrite { path: e.path.clone(), data: stripped.clone() };
                v.push(w);
                proof {
                    assert(logs_of(post, session_id@) == logs_of(pre, session_id@).push(
                        self.logs()[i as int],
                    ));
                }
            } else {
                proof {
                    assert(logs_of(post, session_id@) == logs_of(pre, session_id@));
                }
            }
            i = i + 1;
        }
        proof {
            assert(self.logs().take(n as int) =~= self.logs());
        }
        v
    }

    /// Forgets every log file of the session, returning their paths in
    /// start order; the caller writes [`session_closed_line`] to each and
    /// closes them.
    pub fn cleanup_session(&mut self, session_id: &str) -> (paths: Vec<String>)
        ensures
            final (self).logs() == other_logs(old(self).logs(), session_id@),
            paths@.len() == logs_of(old(self).logs(), session_id@).len(),
            forall|k: int|
                0 <= k < paths@.len() ==> #[trigger] paths@[k]@ == logs_of(
                    old(self).logs(),
                    session_id@,
                )[k].path@,
            old(self).wf() ==> final (self).wf(),
    {
        let n = self.entries.len();
        let mut kept: Vec<ActiveLog> = Vec::new();
        let mut paths: Vec<String> = Vec::new();
        let mut i: usize = 0;
        proof {
            broadcast use group_seq_lib_default;

            assert(self.logs().take(0) =~= Seq::<ActiveLog>::empty());
            reveal(Seq::filter);
        }
        while i < n
            invariant
                n == self.logs().len(),
                i <= n,
                kept@ == other_logs(self.logs().take(i as int), session_id@),
                paths@.len() == logs_of(self.logs().take(i as int), session_id@).len(),
                forall|k: int|
                    0 <= k < paths@.len() ==> #[trigger] paths@[k]@ == logs_of(
                        self.logs().take(i as int),
                        session_id@,
                    )[k].path@,
            decreases n - i,
        {
            let ghost pre = self.logs().take(i as int);
            let ghost post = self.logs().take(i + 1 as int);
            proof {
                reveal(Seq::filter);
                assert(post.drop_last() =~= pre);
                assert(post.last() == self.logs()[i as int]);
            }
            let e = &self.entries[i];
            if crate::text::str_eq(e.session_id.as_str(), session_id) {
                paths.push(e.path.clone());
                proof {
                    assert(logs_of(post, session_id@) == logs_of(pre, session_id@).push(
                        self.logs()[i as int],
                    ));
                    assert(other_logs(post, session_id@) == other_logs(pre, session_id@));
                }
            } else {
                let copy = ActiveLog {
                    session_id: e.session_id.clone(),
                    path: e.path.clone(),
                    started_at: e.started_at.clone(),
                };
                assert(copy == self.logs()[i as int]);
                kept.push(copy);
                proof {
                    assert(logs_of(post, session_id@) == logs_of(pre, session_id@));
                    assert(other_logs(post, session_id@) == other_logs(pre, session_id@).push(
                        self.logs()[i as int],
                    ));
                }
            }
            i = i + 1;
        }
        proof {
            assert(self.logs().take(n as int) =~= self.logs());
        }
        self.entries = kept;
        proof {
            if old(self).wf() {
                lemma_filter_keeps_distinct_pairs(
                    old(self).logs(),
                    |e: ActiveLog| e.session_id@ != session_id@,
                );
            }
        }
        paths
    }
}

/// Pairwise distinctness of (session, path) pairs survives filtering.
proof fn lemma_filter_keeps_distinct_pairs(s: Seq<ActiveLog>, pred: spec_fn(ActiveLog) -> bool)
    requires
        forall|i: int, j: int|
            0 <= i < j < s.len() ==> !(s[i].session_id@ == s[j].session_id@ && s[i].path@
                == s[j].path@),
    ensures
        forall|i: int, j: int|
            0 <= i < j < s.filter(pred).len() ==> !(s.filter(pred)[i].session_id@ == s.filter(
                pred,
            )[j].session_id@ && s.filter(pred)[i].path@ == s.filter(pred)[j].path@),
    decreases s.len(),
{
    reveal(Seq::filter);
    if s.len() > 0 {
        let butlast = s.drop_last();
        lemma_filter_keeps_distinct_pairs(butlast, pred);
        let f = butlast.filter(pred);
        assert forall|i: int, j: int|
            0 <= i < j < s.filter(pred).len() implies !(s.filter(pred)[i].session_id@ == s.filter(
            pred,
        )[j].session_id@ && s.filter(pred)[i].path@ == s.filter(pred)[j].path@) by {
            if pred(s.last()) && j == s.filter(pred).len() - 1 {
                assert(s.filter(pred) == f.push(s.last()));
                assert(s.filter(pred)[j] == s.last());
                assert(f.contains(f[i]));
                butlast.lemma_filter_contains_rev(pred, f[i]);
                let m = choose|m: int| 0 <= m < butlast.len() && butlast[m] == f[i];
                assert(s[m] == f[i]);
                assert(!(s[m].session_id@ == s[s.len() - 1].session_id@ && s[m].path@ == s[s.len()
                    - 1].path@));
            } else {
                assert(s.filter(pred)[i] == f[i] && s.filter(pred)[j] == f[j]);
            }
        }
    }
}

/// The message reported when a start request names a path the session
/// already logs to.
pub open spec fn already_logging_message(filename: Seq<char>) -> Seq<char> {
    "Already logging to '"@ + filename + "'"@
}

/// The message reported when logging to a file begins.
pub open spec fn started_logging_message(filename: Seq<char>) -> Seq<char> {
    "Started logging to '"@ + filename + "'"@
}

/// The message reported when logging to a file ends on request.
pub open spec fn stopped_logging_message(filename: Seq<char>) -> Seq<char> {
    "Stopped logging to '"@ + filename + "'"@
}

/// The message reported when a stop request names a file the session is
/// not logging to.
pub open spec fn not_logging_message(filename: Seq<char>) -> Seq<char> {
    "Not currently logging to '"@ + filename + "'"@
}

/// The message reported when a stop request comes for a session with no
/// active logs at all.
pub open spec fn no_logs_message() -> Seq<char> {
    "No active logs for this session"@
}

/// The header line written into a log file when logging starts.
pub open spec fn log_started_chars(ts: Seq<char>) -> Seq<char> {
    "\n=== Packet Logging Started: "@ + ts + " ===\n\n"@
}

/// The footer line written into a log file when logging stops on request.
pub open spec fn log_ended_chars(ts: Seq<char>) -> Seq<char> {
    "\n=== Packet Logging Ended: "@ + ts + " ===\n\n"@
}

/// The footer line written into every remaining log file when the session
/// itself closes.
pub open spec fn session_closed_chars(ts: Seq<char>) -> Seq<char> {
    "\n=== Packet Logging Ended (Session Closed): "@ + ts + " ===\n\n"@
}

/// Renders the header line for a log started at the given time.
pub fn log_started_line(ts: &str) -> (s: String)
    ensures
        s@ == log_started_chars(ts@),
{
    let mut s = String::new();
    s.append("\n=== Packet Logging Started: ");
    s.append(ts);
    s.append(" ===\n\n");
    s
}

/// Renders the footer line for a log stopped at the given time.
pub fn log_ended_line(ts: &str) -> (s: String)
    ensures
        s@ == log_ended_chars(ts@),
{
    let mut s = String::new();
    s.append("\n=== Packet Logging Ended: ");
    s.append(ts);
    s.append(" ===\n\n");
    s
}

/// Renders the footer line for logs closed with their session.
pub fn session_closed_line(ts: &str) -> (s: String)
    ensures
        s@ == session_closed_chars(ts@),
{
    let mut s = String::new();
    s.append("\n=== Packet Logging Ended (Session Closed): ");
    s.append(ts);
    s.append(" ===\n\n");
    s
}

/// Where a log filename lands: an absolute path is used as it stands, any
/// other name goes into the `packet-logs` directory under the given base.
pub open spec fn resolved_log_path(filename: Seq<char>, base_dir: Seq<char>) -> Seq<char> {
    if filename.len() > 0 && filename[0] == '/' {
        filename
    } else {
        base_dir + "/packet-logs/"@ + filename
    }
}

/// Resolves a log filename against the base directory the embedding
/// chose (the user's home directory, or the working directory).
pub fn resolve_log_path(filename: &str, base_dir: &str) -> (p: String)
    ensures
        p@ == resolved_log_path(filename@, base_dir@),
{
    if crate::text::str_starts_with_char(filename, '/') {
        filename.to_owned()
    } else {
        let mut s = String::new();
        s.append(base_dir);
        s.append("/packet-logs/");
        s.append(filename);
        s
    }
}

/// Law: a session with two active log files under distinct paths has
/// both among its write targets — every chunk offered to the session is
/// offered to each of the two files.
pub proof fn lemma_two_logs_both_receive(book: &LogBook, sid: Seq<char>, p1: Seq<char>, p2: Seq<
    char,
>)
    requires
        book.active(sid, p1),
        book.active(sid, p2),
        p1 != p2,
    ensures
        exists|i: int|
            0 <= i < logs_of(book.logs(), sid).len() && #[trigger] logs_of(book.logs(), sid)[i].path@
                == p1,
        exists|i: int|
            0 <= i < logs_of(book.logs(), sid).len() && #[trigger] logs_of(book.logs(), sid)[i].path@
                == p2,
{
    let s = book.logs();
    let pred = |e: ActiveLog| e.session_id@ == sid;
    let k1 = choose|k: int| 0 <= k < s.len() && s[k].session_id@ == sid && s[k].path@ == p1;
    let k2 = choose|k: int| 0 <= k < s.len() && s[k].session_id@ == sid && s[k].path@ == p2;
    s.lemma_filter_contains(pred, k1);
    s.lemma_filter_contains(pred, k2);
    let f = logs_of(s, sid);
    assert(f.contains(s[k1]));
    assert(f.contains(s[k2]));
    let i1 = choose|i: int| 0 <= i < f.len() && f[i] == s[k1];
    let i2 = choose|i: int| 0 <= i < f.len() && f[i] == s[k2];
    assert(f[i1].path@ == p1);
    assert(f[i2].path@ == p2);
}

} // verus!
