use vstd::prelude::*;

use crate::text::concat;

verus! {

/// Two spaces for each level of depth.
pub open spec fn indent(level: nat) -> Seq<char>
    decreases level,
{
    if level == 0 {
        Seq::empty()
    } else {
        indent((level - 1) as nat) + "  "@
    }
}

/// Two spaces for each level of depth (see [`indent`]).
pub fn indentation(level: usize) -> (r: String)
    ensures
        r@ == indent(level as nat),
{
    let mut s = String::new();
    let mut i: usize = 0;
    while i < level
        invariant
            i <= level,
            s@ == indent(i as nat),
        decreases level - i,
    {
        s.append("  ");
        i = i + 1;
    }
    s
}

/// Tracer representing the context: its title and, where tracing is on, its depth.
#[derive(Debug)]
pub struct Tracer {
    pub title: String,
    pub depth: Option<usize>,
}

/// Levels of logging.
#[derive(Debug, Clone, Copy, PartialEq, Eq, Structural)]
pub enum LogLevel {
    Info,
    Debug,
    Trace,
}

/// The level of logging for a verbosity: nothing or 0 is info, 1 debug, more trace.
pub open spec fn level_of(verbose: Option<usize>) -> LogLevel {
    let v = match verbose {
        Some(v) => v,
        None => 0,
    };
    if v == 0 {
        LogLevel::Info
    } else if v == 1 {
        LogLevel::Debug
    } else {
        LogLevel::Trace
    }
}

/// The level of logging for a verbosity (see [`level_of`]).
pub fn log_level(verbose: Option<usize>) -> (r: LogLevel)
    ensures
        r == level_of(verbose),
{
    let v = match verbose {
        Some(v) => v,
        None => 0,
    };
    if v == 0 {
        LogLevel::Info
    } else if v == 1 {
        LogLevel::Debug
    } else {
        LogLevel::Trace
    }
}

impl Tracer {
    /// Create a tracing session at a depth (none where tracing is off, as when
    /// work runs in parallel).
    pub fn new(title: String, depth: Option<usize>) -> (r: Self)
        ensures
            r.title@ == title@,
            r.depth == depth,
    {
        Tracer { title, depth }
    }

    /// The line that opens the session, if traced: its indentation, `-> ` and its title.
    pub fn enter_line(&self) -> (r: Option<String>)
        ensures
            match self.depth {
                None => r is None,
                Some(level) => r matches Some(l) && l@ == indent(level as nat) + "-> "@ + self.title@,
            },
    {
        match self.depth {
            None => None,
            Some(level) => {
                let mut s = indentation(level);
                s.append("-> ");
                s.append(self.title.as_str());
                Some(s)
            },
        }
    }

    /// The line that records an event, if traced: its indentation, a space and the event.
    pub fn log(&self, event: &str) -> (r: Option<String>)
        ensures
            match self.depth {
                None => r is None,
                Some(level) => r matches Some(l) && l@ == indent(level as nat) + " "@ + event@,
            },
    {
        match self.depth {
            None => None,
            Some(level) => {
                let mut s = indentation(level);
                s.append(" ");
                s.append(event);
                Some(s)
            },
        }
    }

    /// The line that closes the session, if traced: its indentation, `<- ` and its title.
    pub fn exit_line(&self) -> (r: Option<String>)
        ensures
            match self.depth {
                None => r is None,
                Some(level) => r matches Some(l) && l@ == indent(level as nat) + "<- "@ + self.title@,
            },
    {
        match self.depth {
            None => None,
            Some(level) => {
                let mut s = indentation(level);
                s.append("<- ");
                s.append(self.title.as_str());
                Some(s)
            },
        }
    }
}

} // verus!
