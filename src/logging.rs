//! Logging options: the least severe level printed and when to colour.

use vstd::prelude::*;

verus! {

/// The least severe level of message that is printed.
#[derive(Debug, Clone, Copy, PartialEq, Eq, Structural)]
pub enum LevelFilter {
    Trace,
    Debug,
    Info,
    Warn,
    Error,
}

impl Default for LevelFilter {
    fn default() -> (r: LevelFilter)
        ensures
            r == LevelFilter::Info,
    {
        LevelFilter::Info
    }
}

/// When log output is coloured.
#[derive(Debug, Clone, Copy, PartialEq, Eq, Structural)]
pub enum WriteStyle {
    Auto,
    Always,
    Never,
}

impl Default for WriteStyle {
    fn default() -> (r: WriteStyle)
        ensures
            r == WriteStyle::Auto,
    {
        WriteStyle::Auto
    }
}

#[derive(Debug, Clone, Copy, PartialEq, Eq, Structural)]
pub struct LogOpts {
    pub level: LevelFilter,
    pub style: WriteStyle,
}

impl LevelFilter {
    /// The filter named by a word, in any letter case.
    pub fn from_name(name: &str) -> (r: Option<LevelFilter>)
        ensures
            r == level_named(name@),
    {
        proof {
            reveal_strlit("trace");
            reveal_strlit("debug");
            reveal_strlit("info");
            reveal_strlit("warn");
            reveal_strlit("error");
            assert("trace"@ =~= seq!['t', 'r', 'a', 'c', 'e']);
            assert("debug"@ =~= seq!['d', 'e', 'b', 'u', 'g']);
            assert("info"@ =~= seq!['i', 'n', 'f', 'o']);
            assert("warn"@ =~= seq!['w', 'a', 'r', 'n']);
            assert("error"@ =~= seq!['e', 'r', 'r', 'o', 'r']);
        }
        if crate::matcher::eq_ignore_case(name, "trace") {
            Some(LevelFilter::Trace)
        } else if crate::matcher::eq_ignore_case(name, "debug") {
            Some(LevelFilter::Debug)
        } else if crate::matcher::eq_ignore_case(name, "info") {
            Some(LevelFilter::Info)
        } else if crate::matcher::eq_ignore_case(name, "warn") {
            Some(LevelFilter::Warn)
        } else if crate::matcher::eq_ignore_case(name, "error") {
            Some(LevelFilter::Error)
        } else {
            None
        }
    }

    /// The more verbose of the two: at least as much is printed as `floor`
    /// prints.
    pub fn at_least(self, floor: LevelFilter) -> (r: LevelFilter)
        ensures
            r == (if verbosity(self) > verbosity(floor) { floor } else { self }),
    {
        if self.rank() > floor.rank() {
            floor
        } else {
            self
        }
    }

    fn rank(self) -> (r: u8)
        ensures
            r == verbosity(self),
    {
        match self {
            LevelFilter::Trace => 0,
            LevelFilter::Debug => 1,
            LevelFilter::Info => 2,
            LevelFilter::Warn => 3,
            LevelFilter::Error => 4,
        }
    }
}

/// Trace is the most verbose, error the least.
pub open spec fn verbosity(l: LevelFilter) -> u8 {
    match l {
        LevelFilter::Trace => 0,
        LevelFilter::Debug => 1,
        LevelFilter::Info => 2,
        LevelFilter::Warn => 3,
        LevelFilter::Error => 4,
    }
}

pub open spec fn level_named(name: Seq<char>) -> Option<LevelFilter> {
    if crate::matcher::text_eq_ignore_case(name, seq!['t', 'r', 'a', 'c', 'e']) {
        Some(LevelFilter::Trace)
    } else if crate::matcher::text_eq_ignore_case(name, seq!['d', 'e', 'b', 'u', 'g']) {
        Some(LevelFilter::Debug)
    } else if crate::matcher::text_eq_ignore_case(name, seq!['i', 'n', 'f', 'o']) {
        Some(LevelFilter::Info)
    } else if crate::matcher::text_eq_ignore_case(name, seq!['w', 'a', 'r', 'n']) {
        Some(LevelFilter::Warn)
    } else if crate::matcher::text_eq_ignore_case(name, seq!['e', 'r', 'r', 'o', 'r']) {
        Some(LevelFilter::Error)
    } else {
        None
    }
}

} // verus!
