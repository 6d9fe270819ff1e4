//! Verbosity levels.

use vstd::prelude::*;

verus! {

pub const LEVEL_QUIET: u8 = 0;

pub const LEVEL_DEFAULT: u8 = 1;

pub const LEVEL_PROGRESS: u8 = 2;

pub const LEVEL_METHOD: u8 = 3;

pub const LEVEL_BODIES: u8 = 4;

#[derive(Debug, Clone, Copy)]
pub struct Logger {
    level: u8,
}

impl Logger {
    pub closed spec fn spec_level(&self) -> u8 {
        self.level
    }

    /// A logger at `level`, capped at `LEVEL_BODIES`.
    pub fn new(level: u8) -> (r: Logger)
        ensures
            r.spec_level() == if level > LEVEL_BODIES { LEVEL_BODIES } else { level },
    {
        Logger { level: if level > LEVEL_BODIES { LEVEL_BODIES } else { level } }
    }

    /// Quiet silences everything; each `-v` raises the default by one level.
    pub fn from_flags(quiet: bool, verbose: u8) -> (r: Logger)
        ensures
            r.spec_level() == if quiet {
                LEVEL_QUIET as int
            } else if LEVEL_DEFAULT + verbose > LEVEL_BODIES {
                LEVEL_BODIES as int
            } else {
                LEVEL_DEFAULT + verbose
            },
    {
        let level = if quiet {
            LEVEL_QUIET
        } else {
            LEVEL_DEFAULT.saturating_add(verbose)
        };
        Logger::new(level)
    }

    pub fn level(&self) -> (r: u8)
        ensures
            r == self.spec_level(),
    {
        self.level
    }

    /// Whether messages of `level` are shown.
    pub fn enabled(&self, level: u8) -> (r: bool)
        ensures
            r == (self.spec_level() >= level),
    {
        self.level >= level
    }
}

/// Raising the verbosity never hides a level that was shown.
pub proof fn law_verbosity_monotone(v1: u8, v2: u8, level: u8)
    requires
        v1 <= v2,
        (if LEVEL_DEFAULT + v1 > LEVEL_BODIES { LEVEL_BODIES as int } else { LEVEL_DEFAULT + v1 }) >= level,
    ensures
        (if LEVEL_DEFAULT + v2 > LEVEL_BODIES { LEVEL_BODIES as int } else { LEVEL_DEFAULT + v2 }) >= level,
{
}

} // verus!
