//! Log and error reporting through the host.
//!
//! The host records a message at a severity level; levels at
//! [`Level::Error`] and above additionally abort the current statement by a
//! host non-local exit after the message is recorded, which the guest
//! observes through the exception bridge. Emission itself runs under a
//! guard, since the host's log-start routine can itself signal.
//!
//! The host's log is modeled as an explicit [`LogSink`] that records every
//! emitted message; [`log`] appends to it and reports whether the severity
//! triggers a non-local exit.

use vstd::prelude::*;
use vstd::string::StringExecFns;

use crate::pg_guard::JumpContext;

verus! {

/// The host's logging levels, ordered from least to most severe.
///
/// Levels at `Error` and above cause the current statement and transaction
/// to fail and be reset.
#[derive(Clone, Copy, PartialEq, Eq, Structural, Debug)]
pub enum Level {
    /// Debugging messages, in categories of 5 decreasing detail.
    Debug5,
    /// Debugging messages, in categories of 4 decreasing detail.
    Debug4,
    /// Debugging messages, in categories of 3 decreasing detail.
    Debug3,
    /// Debugging messages, in categories of 2 decreasing detail.
    Debug2,
    /// Debugging messages, in categories of 1 decreasing detail.
    Debug1,
    /// Server operational messages; sent only to the server log by default.
    Log,
    /// Same as `Log` for server reporting, but never sent to the client.
    LogServerOnly,
    /// Messages specifically requested by the user; always sent to the
    /// client, by default not to the server log.
    Info,
    /// Helpful messages to users about query operation.
    Notice,
    /// Warnings about unexpected conditions.
    Warning,
    /// User error: aborts the transaction and returns to a known state.
    Error,
    /// Fatal error: aborts the whole backend process.
    Fatal,
    /// Takes the other backends down too.
    Panic,
}

impl Level {
    /// The host's numeric code for this level, matching its compiled
    /// constants; the order of the codes is the order of severity.
    pub open spec fn code_spec(self) -> i32 {
        match self {
            Level::Debug5 => 10,
            Level::Debug4 => 11,
            Level::Debug3 => 12,
            Level::Debug2 => 13,
            Level::Debug1 => 14,
            Level::Log => 15,
            Level::LogServerOnly => 16,
            Level::Info => 17,
            Level::Notice => 18,
            Level::Warning => 19,
            Level::Error => 20,
            Level::Fatal => 21,
            Level::Panic => 22,
        }
    }

    /// The host's numeric code for this level.
    pub fn code(self) -> (r: i32)
        ensures
            r == self.code_spec(),
    {
        match self {
            Level::Debug5 => 10,
            Level::Debug4 => 11,
            Level::Debug3 => 12,
            Level::Debug2 => 13,
            Level::Debug1 => 14,
            Level::Log => 15,
            Level::LogServerOnly => 16,
            Level::Info => 17,
            Level::Notice => 18,
            Level::Warning => 19,
            Level::Error => 20,
            Level::Fatal => 21,
            Level::Panic => 22,
        }
    }

    /// Whether recording a message at this level makes the host perform a
    /// non-local exit afterwards: true for `Error` and above.
    pub open spec fn aborts_spec(self) -> bool {
        self.code_spec() >= 20
    }

    /// Whether this level aborts the current statement.
    pub fn aborts(self) -> (r: bool)
        ensures
            r == self.aborts_spec(),
    {
        self.code() >= 20
    }
}

/// One message as recorded by the host.
pub struct LogRecord {
    /// The severity it was recorded at.
    pub level: Level,
    /// The reporting source file.
    pub file: String,
    /// The reporting source line.
    pub line: u32,
    /// The reporting function or module.
    pub func_name: String,
    /// The message itself.
    pub msg: String,
}

/// The host's log, as observed by guest code: the sequence of every message
/// recorded so far.
pub struct LogSink {
    /// The recorded messages, oldest first.
    pub records: Vec<LogRecord>,
}

impl LogSink {
    /// An empty log.
    pub fn new() -> (r: LogSink)
        ensures
            r.records@.len() == 0,
    {
        LogSink { records: Vec::new() }
    }

    /// `self` is `prior` with zero or more records appended.
    pub open spec fn extends(self, prior: LogSink) -> bool {
        &&& self.records@.len() >= prior.records@.len()
        &&& forall|i: int|
            0 <= i < prior.records@.len() ==> self.records@[i] == #[trigger] prior.records@[i]
    }
}

/// Extension of the log composes.
pub proof fn lemma_extends_transitive(a: LogSink, b: LogSink, c: LogSink)
    requires
        b.extends(a),
        c.extends(b),
    ensures
        c.extends(a),
{
}

/// Record a message at the given severity.
///
/// The record always lands in the log; when the severity is `Error` or
/// higher the host follows up with a non-local exit, returned here as the
/// jump code the bridge would observe.
pub fn log(
    sink: &mut LogSink,
    level: Level,
    file: &str,
    line: u32,
    func_name: &str,
    msg: &str,
) -> (r: Option<JumpContext>)
    ensures
        final(sink).records@.len() == old(sink).records@.len() + 1,
        final(sink).extends(*old(sink)),
        final(sink).records@.last().level == level,
        final(sink).records@.last().file@ == file@,
        final(sink).records@.last().line == line,
        final(sink).records@.last().func_name@ == func_name@,
        final(sink).records@.last().msg@ == msg@,
        (r is Some) == level.aborts_spec(),
{
    sink.records.push(
        LogRecord {
            level,
            file: String::from_str(file),
            line,
            func_name: String::from_str(func_name),
            msg: String::from_str(msg),
        },
    );
    if level.aborts() {
        Some(JumpContext { jump_value: 1 })
    } else {
        None
    }
}

} // verus!
