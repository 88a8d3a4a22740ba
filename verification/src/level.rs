use vstd::prelude::*;

use crate::strutil::str_eq;

verus! {

/// The diagnostic severity threshold, ordered from most to least severe.
#[derive(Clone, Copy, Debug, PartialEq, Eq, Structural)]
pub enum Level {
    Fatal,
    Error,
    Warn,
    Note,
    Silent,
}

impl View for Level {
    type V = Level;

    open spec fn view(&self) -> Level {
        *self
    }
}

/// The spelling table for severity levels: each level is written either
/// by its first letter or by its full name; anything else is no level.
pub open spec fn spec_parse_level(s: Seq<char>) -> Option<Level> {
    if s == "f"@ || s == "fatal"@ {
        Some(Level::Fatal)
    } else if s == "e"@ || s == "error"@ {
        Some(Level::Error)
    } else if s == "w"@ || s == "warn"@ {
        Some(Level::Warn)
    } else if s == "n"@ || s == "note"@ {
        Some(Level::Note)
    } else if s == "s"@ || s == "silent"@ {
        Some(Level::Silent)
    } else {
        None
    }
}

/// Reads a severity level from its spelling.
pub fn parse_level(s: &str) -> (r: Option<Level>)
    ensures
        r == spec_parse_level(s@),
{
    if str_eq(s, "f") || str_eq(s, "fatal") {
        Some(Level::Fatal)
    } else if str_eq(s, "e") || str_eq(s, "error") {
        Some(Level::Error)
    } else if str_eq(s, "w") || str_eq(s, "warn") {
        Some(Level::Warn)
    } else if str_eq(s, "n") || str_eq(s, "note") {
        Some(Level::Note)
    } else if str_eq(s, "s") || str_eq(s, "silent") {
        Some(Level::Silent)
    } else {
        None
    }
}

} // verus!
