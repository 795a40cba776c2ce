//! The command-line surface and the logging level it selects.
//!
//! Argument parsing and log output live outside the library; this module
//! holds the parsed shape of the command line and the rule mapping the
//! verbosity count to a logging level.

use vstd::prelude::*;

verus! {

/// The parsed command line: one subcommand and a verbosity count that
/// grows with each repetition of the flag.
pub struct Cli {
    pub commands: Commands,
    pub verbose: u8,
}

/// The subcommands: stream to a WHIP destination, serve inbound WHIP
/// requests and play them, or play from a WHEP destination.
#[derive(Debug)]
pub enum Commands {
    Stream { url: String, token: Option<String> },
    PlayWHIP {},
    PlayWHEP { url: String, token: Option<String> },
}

/// A logging level, coarsest to finest.
#[derive(Clone, Copy, PartialEq, Eq, Structural, Debug)]
pub enum LogLevel {
    Warn,
    Info,
    Debug,
    Trace,
}

/// The logging level a verbosity count selects: warnings by default,
/// one step finer for each repetition, everything from three up.
pub fn log_level_for(verbose: u8) -> (r: LogLevel)
    ensures
        verbose == 0 ==> r == LogLevel::Warn,
        verbose == 1 ==> r == LogLevel::Info,
        verbose == 2 ==> r == LogLevel::Debug,
        verbose >= 3 ==> r == LogLevel::Trace,
{
    if verbose == 0 {
        LogLevel::Warn
    } else if verbose == 1 {
        LogLevel::Info
    } else if verbose == 2 {
        LogLevel::Debug
    } else {
        LogLevel::Trace
    }
}

} // verus!
