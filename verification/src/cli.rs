//! The command line: how often `-v` was given decides the log level.

use vstd::prelude::*;

verus! {

/// What the command line holds.
#[derive(Clone, Copy, Debug, PartialEq, Eq, Structural)]
pub struct Cli {
    /// How often `-v` was given, where it was given at all.
    pub verbosity: Option<u8>,
}

/// Number of log levels.
pub const LEVEL_COUNT: u8 = 5;

/// The name of a log level, by its rank: `error`, `warn`, `info`, `debug`,
/// and `trace` for every rank from four on.
pub open spec fn level_name(rank: int) -> Seq<char> {
    if rank <= 0 {
        "error"@
    } else if rank == 1 {
        "warn"@
    } else if rank == 2 {
        "info"@
    } else if rank == 3 {
        "debug"@
    } else {
        "trace"@
    }
}

/// The rank of the log level that a command line asks for.
pub open spec fn level_rank(args: Cli) -> int {
    match args.verbosity {
        Some(count) => if count >= LEVEL_COUNT {
            LEVEL_COUNT - 1
        } else {
            count as int
        },
        None => 0,
    }
}

/// The log level that a command line asks for: `error` without `-v`, and one
/// level more for each `-v`, up to `trace`.
pub fn parse(args: Cli) -> (r: Option<String>)
    ensures
        r matches Some(level) && level@ == level_name(level_rank(args)),
{
    let rank: u8 = match args.verbosity {
        Some(count) => if count >= LEVEL_COUNT {
            LEVEL_COUNT - 1
        } else {
            count
        },
        None => 0,
    };
    let name = if rank == 0 {
        "error"
    } else if rank == 1 {
        "warn"
    } else if rank == 2 {
        "info"
    } else if rank == 3 {
        "debug"
    } else {
        "trace"
    };
    Some(name.to_owned())
}

} // verus!
