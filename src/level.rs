//! Log levels and level filters

use vstd::prelude::*;

verus! {

/// The severity of a log record, most severe first
#[derive(Clone, Copy, Debug, PartialEq, Eq, Structural)]
pub enum Level {
    Error,
    Warn,
    Info,
    Debug,
    Trace,
}

/// A maximum level: records at this level or a more severe one pass
#[derive(Clone, Copy, Debug, PartialEq, Eq, Structural)]
pub enum LevelFilter {
    Off,
    Error,
    Warn,
    Info,
    Debug,
    Trace,
}

/// The rank of a level: 1 for `Error` up to 5 for `Trace`.
pub open spec fn level_rank(level: Level) -> nat {
    match level {
        Level::Error => 1,
        Level::Warn => 2,
        Level::Info => 3,
        Level::Debug => 4,
        Level::Trace => 5,
    }
}

/// The rank of a filter: 0 for `Off` up to 5 for `Trace`.
pub open spec fn filter_rank(filter: LevelFilter) -> nat {
    match filter {
        LevelFilter::Off => 0,
        LevelFilter::Error => 1,
        LevelFilter::Warn => 2,
        LevelFilter::Info => 3,
        LevelFilter::Debug => 4,
        LevelFilter::Trace => 5,
    }
}

/// Whether `filter` lets a record of `level` through.
pub open spec fn level_passes(level: Level, filter: LevelFilter) -> bool {
    level_rank(level) <= filter_rank(filter)
}

/// The name of a level as it appears on the wire, in ASCII.
pub open spec fn level_label(level: Level) -> Seq<u8> {
    match level {
        // "ERROR"
        Level::Error => seq![0x45u8, 0x52u8, 0x52u8, 0x4fu8, 0x52u8],
        // "WARN"
        Level::Warn => seq![0x57u8, 0x41u8, 0x52u8, 0x4eu8],
        // "INFO"
        Level::Info => seq![0x49u8, 0x4eu8, 0x46u8, 0x4fu8],
        // "DEBUG"
        Level::Debug => seq![0x44u8, 0x45u8, 0x42u8, 0x55u8, 0x47u8],
        // "TRACE"
        Level::Trace => seq![0x54u8, 0x52u8, 0x41u8, 0x43u8, 0x45u8],
    }
}

impl Level {
    /// Whether `filter` lets a record of this level through.
    pub fn passes(self, filter: LevelFilter) -> (r: bool)
        ensures
            r == level_passes(self, filter),
    {
        let rank: u8 = match self {
            Level::Error => 1,
            Level::Warn => 2,
            Level::Info => 3,
            Level::Debug => 4,
            Level::Trace => 5,
        };
        let limit: u8 = match filter {
            LevelFilter::Off => 0,
            LevelFilter::Error => 1,
            LevelFilter::Warn => 2,
            LevelFilter::Info => 3,
            LevelFilter::Debug => 4,
            LevelFilter::Trace => 5,
        };
        rank <= limit
    }

    /// The name of this level as it appears on the wire.
    pub fn label(self) -> (r: &'static [u8])
        ensures
            r@ == level_label(self),
    {
        level_name(self)
    }
}

/// Relies on `log::Level::as_str`: the upper-case name of the level, taken
/// from the table `["OFF", "ERROR", "WARN", "INFO", "DEBUG", "TRACE"]`.
#[verifier::external_body]
fn level_name(level: Level) -> (r: &'static [u8])
    ensures
        r@ == level_label(level),
{
    let level = match level {
        Level::Error => log::Level::Error,
        Level::Warn => log::Level::Warn,
        Level::Info => log::Level::Info,
        Level::Debug => log::Level::Debug,
        Level::Trace => log::Level::Trace,
    };
    level.as_str().as_bytes()
}

/// Relies on `log::STATIC_MAX_LEVEL`: the most verbose level that the build of
/// `log` keeps, which its cargo features choose.
#[verifier::external_body]
pub(crate) fn static_max_level() -> (r: LevelFilter) {
    match log::STATIC_MAX_LEVEL {
        log::LevelFilter::Off => LevelFilter::Off,
        log::LevelFilter::Error => LevelFilter::Error,
        log::LevelFilter::Warn => LevelFilter::Warn,
        log::LevelFilter::Info => LevelFilter::Info,
        log::LevelFilter::Debug => LevelFilter::Debug,
        log::LevelFilter::Trace => LevelFilter::Trace,
    }
}

} // verus!
