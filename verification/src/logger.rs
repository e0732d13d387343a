//! The sink that captures log lines during one session, the handle of a
//! session, and the handle of a scope inside it.

use crate::level::{at_least, passes};
use crate::line::{line, push_line, unknown_module};
use crate::path::{
    byte_len, byte_length, can_cut, cut, lemma_byte_len_zero, lemma_pop_undoes_push, mark_fits,
    pushed, truncate,
};
use vstd::prelude::*;
use vstd::string::*;

verus! {

/// What an open session holds, as the contracts see it: the text captured
/// so far, and the dotted path of the scopes entered and not yet left.
pub struct Capture {
    pub buffer: Seq<char>,
    pub path: Seq<char>,
}

/// The capture of a session that has just been opened.
pub open spec fn fresh() -> Capture {
    Capture { buffer: Seq::empty(), path: Seq::empty() }
}

/// Whether a sink in this state can take a new session: it holds none.
pub open spec fn can_open(state: Option<Capture>) -> bool {
    state is None
}

/// The state of a sink on which a session has just been opened.
pub open spec fn opened() -> Option<Capture> {
    Some(fresh())
}

/// The state of a sink whose session has ended.
pub open spec fn closed() -> Option<Capture> {
    None
}

/// Whether a sink in this state can take a record of this level: a record
/// that passes the filter needs an open session.
pub open spec fn can_log(state: Option<Capture>, level: log::Level) -> bool {
    passes(level) ==> state is Some
}

/// The module that a line names for a record.
pub open spec fn module_text(origin: Option<&str>) -> Seq<char> {
    match origin {
        Some(module) => module@,
        None => unknown_module(),
    }
}

/// The state of a sink after a record has reached it: a record that
/// passes the filter adds its line to the buffer of the open session, and
/// any other record changes nothing.
pub open spec fn logged(
    state: Option<Capture>,
    level: log::Level,
    module: Seq<char>,
    message: Seq<char>,
) -> Option<Capture> {
    match state {
        Some(capture) if passes(level) => Some(
            Capture {
                buffer: capture.buffer + line(level, module, capture.path, message),
                path: capture.path,
            },
        ),
        _ => state,
    }
}

struct Logger {
    buf: String,
    sublogger: String,
}

/// The sink: the one slot that holds the capture of the open session, or
/// nothing while no session is open.
pub struct GlobalLogger {
    cur: Option<Logger>,
}

/// The handle of an open session. It holds nothing: the capture stays in
/// the sink until the session is closed.
pub struct SchedulerLogger;

/// The handle of a scope that was entered. It records the length in bytes
/// that the path had before.
pub struct Sublogger(usize);

impl View for GlobalLogger {
    type V = Option<Capture>;

    closed spec fn view(&self) -> Option<Capture> {
        match self.cur {
            Some(lg) => Some(Capture { buffer: lg.buf@, path: lg.sublogger@ }),
            None => None,
        }
    }
}

impl GlobalLogger {
    /// A sink with no session open.
    pub fn new() -> (sink: GlobalLogger)
        ensures
            sink@ == closed(),
    {
        GlobalLogger { cur: None }
    }

    /// Tells whether a session is open.
    pub fn is_active(&self) -> (b: bool)
        ensures
            b == (self@ is Some),
    {
        self.cur.is_some()
    }

    /// Tells whether records of the given level are captured.
    pub fn enabled(&self, level: log::Level) -> (b: bool)
        ensures
            b == passes(level),
    {
        at_least(level, log::Level::Info)
    }

    /// Takes one record. A record that passes the filter needs an open
    /// session, and its line is added to the buffer of that session. A
    /// record below the threshold is dropped, whether a session is open
    /// or not.
    pub fn log(&mut self, level: log::Level, origin: Option<&str>, message: &str)
        requires
            can_log(old(self)@, level),
        ensures
            final(self)@ == logged(old(self)@, level, module_text(origin), message@),
            !passes(level) ==> final(self)@ == old(self)@,
    {
        if self.enabled(level) {
            let module = match origin {
                Some(module) => module,
                None => "<unknown>",
            };
            proof {
                reveal_strlit("<unknown>");
                assert("<unknown>"@ == unknown_module());
            }
            match &mut self.cur {
                Some(lg) => {
                    push_line(&mut lg.buf, level, module, lg.sublogger.as_str(), message);
                },
                None => unreached(),
            }
        }
    }

    /// Does nothing: the captured text leaves the sink when the session is
    /// closed.
    pub fn flush(&self) {
    }
}

impl SchedulerLogger {
    /// Opens a session on a sink that has none, with an empty buffer and
    /// an empty path.
    pub fn context(sink: &mut GlobalLogger) -> (session: SchedulerLogger)
        requires
            can_open(old(sink)@),
        ensures
            final(sink)@ == opened(),
    {
        sink.cur = Some(Logger { buf: String::new(), sublogger: String::new() });
        SchedulerLogger
    }

    /// Closes the session and returns the text that it captured.
    pub fn into_inner(self, sink: &mut GlobalLogger) -> (text: String)
        requires
            old(sink)@ is Some,
        ensures
            final(sink)@ == closed(),
            text@ == old(sink)@->0.buffer,
    {
        match sink.cur.take() {
            Some(lg) => lg.buf,
            None => unreached(),
        }
    }

    /// Ends the session without its text: the sink is left with no session,
    /// whether it had one or not.
    pub fn discard(self, sink: &mut GlobalLogger)
        ensures
            final(sink)@ == closed(),
    {
        sink.cur = None;
    }
}

impl Sublogger {
    /// The length in bytes that the path had when the scope was entered.
    pub closed spec fn mark(&self) -> nat {
        self.0 as nat
    }

    /// Enters the scope `name`: the name is added to the path of the open
    /// session, after a `.` where the path was not empty. The scope that
    /// comes back can be left at once, which gives back the path as it
    /// was.
    pub fn context(sink: &mut GlobalLogger, name: &str) -> (scope: Sublogger)
        requires
            old(sink)@ is Some,
        ensures
            scope.mark() == byte_len(old(sink)@->0.path),
            final(sink)@ is Some,
            final(sink)@->0.buffer == old(sink)@->0.buffer,
            final(sink)@->0.path == pushed(old(sink)@->0.path, name@),
            mark_fits(final(sink)@->0.path, scope.mark()),
            cut(final(sink)@->0.path, scope.mark()) == old(sink)@->0.path,
    {
        match &mut sink.cur {
            Some(lg) => {
                let len: usize = byte_length(lg.sublogger.as_str());
                proof {
                    lemma_byte_len_zero(lg.sublogger@);
                    lemma_pop_undoes_push(lg.sublogger@, name@);
                    reveal_strlit(".");
                }
                if len != 0 {
                    lg.sublogger.append(".");
                }
                lg.sublogger.append(name);
                Sublogger(len)
            },
            None => unreached(),
        }
    }

    /// Tells whether the scope can be left now: a session is open, and the
    /// recorded length is a place where its path can be cut.
    pub fn fits(&self, sink: &GlobalLogger) -> (b: bool)
        ensures
            b == (sink@ is Some && mark_fits(sink@->0.path, self.mark())),
    {
        match &sink.cur {
            Some(lg) => can_cut(lg.sublogger.as_str(), self.0),
            None => false,
        }
    }

    /// Leaves the scope: the path is cut back to the length that it had
    /// when the scope was entered.
    pub fn pop(self, sink: &mut GlobalLogger)
        requires
            old(sink)@ is Some,
            mark_fits(old(sink)@->0.path, self.mark()),
        ensures
            final(sink)@ is Some,
            final(sink)@->0.buffer == old(sink)@->0.buffer,
            final(sink)@->0.path == cut(old(sink)@->0.path, self.mark()),
    {
        match &mut sink.cur {
            Some(lg) => {
                truncate(&mut lg.sublogger, self.0);
            },
            None => unreached(),
        }
    }
}

} // verus!
