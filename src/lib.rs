//! Interrupt-safe, non-blocking logging over a DMA-driven serial transmitter
//!
//! Log records are serialized into a fixed-capacity circular buffer whose
//! ownership alternates between the logger and a transfer engine that sends
//! the buffered bytes. A record never blocks its caller: bytes that do not fit
//! are dropped.

use vstd::prelude::*;

pub mod dma;
pub mod filters;
pub mod level;
pub mod loopback;
pub mod record;
pub mod ring;
pub mod sink;

pub use filters::{Filter, Filters};
pub use level::{Level, LevelFilter};

use level::static_max_level;
use log::SetLoggerError as LoggerAlreadySet;

verus! {

/// Logging configuration
///
/// `max_level` bounds *all* logging. `filters` lists the targets of interest;
/// an empty list (the default) lets every target through.
pub struct LoggingConfig {
    /// The max log level for all logging
    pub max_level: LevelFilter,
    /// The targets to log, each with an optional level filter
    pub filters: &'static [Filter],
}

impl Default for LoggingConfig {
    /// The max level that the build of `log` keeps, and no target filter.
    fn default() -> (r: LoggingConfig)
        ensures
            r.filters@.len() == 0,
    {
        LoggingConfig { max_level: static_max_level(), filters: &[] }
    }
}

/// An error that indicates the logger is already set
#[derive(Debug)]
pub struct SetLoggerError(());

#[verifier::external_type_specification]
#[verifier::external_body]
pub struct ExLoggerAlreadySet(LoggerAlreadySet);

impl From<LoggerAlreadySet> for SetLoggerError {
    fn from(e: LoggerAlreadySet) -> (r: SetLoggerError) {
        SetLoggerError(())
    }
}

impl vstd::std_specs::convert::FromSpecImpl<LoggerAlreadySet> for SetLoggerError {
    open spec fn obeys_from_spec() -> bool {
        true
    }

    closed spec fn from_spec(v: LoggerAlreadySet) -> SetLoggerError {
        SetLoggerError(())
    }
}

} // verus!
