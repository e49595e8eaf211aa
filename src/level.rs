use vstd::prelude::*;

verus! {

/// Severity of a span or an event.
#[derive(Clone, Copy, Debug, PartialEq, Eq, Structural)]
pub enum Level {
    Error,
    Warn,
    Info,
    Debug,
    Trace,
}

/// The numeric code that the Bunyan format gives each severity.
pub open spec fn level_code(level: Level) -> u16 {
    match level {
        Level::Error => 50,
        Level::Warn => 40,
        Level::Info => 30,
        Level::Debug => 20,
        Level::Trace => 10,
    }
}

/// Convert a severity to Bunyan's numeric level.
pub fn to_bunyan_level(level: &Level) -> (r: u16)
    ensures
        r == level_code(*level),
{
    match level {
        Level::Error => 50,
        Level::Warn => 40,
        Level::Info => 30,
        Level::Debug => 20,
        Level::Trace => 10,
    }
}

/// Each severity has its fixed code, and distinct severities get distinct codes.
pub proof fn lemma_level_codes(a: Level, b: Level)
    ensures
        level_code(Level::Error) == 50,
        level_code(Level::Warn) == 40,
        level_code(Level::Info) == 30,
        level_code(Level::Debug) == 20,
        level_code(Level::Trace) == 10,
        level_code(a) == level_code(b) <==> a == b,
{
}

} // verus!
