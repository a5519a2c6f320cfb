use vstd::prelude::*;

verus! {

/// Severity of a log event, from the most severe to the most verbose.
#[derive(Debug, Clone, Copy, PartialEq, Eq, Structural, PartialOrd, Ord, Hash)]
pub enum Level {
    Error,
    Warn,
    Info,
    Debug,
    Trace,
}

impl Level {
    /// Position in the severity order: `Error` is 1, `Trace` is 5. A smaller
    /// rank is more severe.
    pub open spec fn rank(self) -> nat {
        match self {
            Level::Error => 1,
            Level::Warn => 2,
            Level::Info => 3,
            Level::Debug => 4,
            Level::Trace => 5,
        }
    }

    pub fn severity_rank(&self) -> (r: u8)
        ensures
            r as nat == self.rank(),
    {
        match self {
            Level::Error => 1,
            Level::Warn => 2,
            Level::Info => 3,
            Level::Debug => 4,
            Level::Trace => 5,
        }
    }

    /// The more verbose of two levels.
    pub open spec fn spec_max(a: Level, b: Level) -> Level {
        if a.rank() >= b.rank() { a } else { b }
    }

    pub fn more_verbose(a: Level, b: Level) -> (r: Level)
        ensures
            r == Level::spec_max(a, b),
    {
        if a.severity_rank() >= b.severity_rank() { a } else { b }
    }

    /// The upper-case name used in formatted records.
    pub open spec fn spec_label(self) -> Seq<char> {
        match self {
            Level::Error => seq!['E', 'R', 'R', 'O', 'R'],
            Level::Warn => seq!['W', 'A', 'R', 'N'],
            Level::Info => seq!['I', 'N', 'F', 'O'],
            Level::Debug => seq!['D', 'E', 'B', 'U', 'G'],
            Level::Trace => seq!['T', 'R', 'A', 'C', 'E'],
        }
    }

    pub fn label(&self) -> (r: &'static str)
        ensures
            r@ == self.spec_label(),
    {
        match self {
            Level::Error => {
                proof { reveal_strlit("ERROR"); }
                "ERROR"
            },
            Level::Warn => {
                proof { reveal_strlit("WARN"); }
                "WARN"
            },
            Level::Info => {
                proof { reveal_strlit("INFO"); }
                "INFO"
            },
            Level::Debug => {
                proof { reveal_strlit("DEBUG"); }
                "DEBUG"
            },
            Level::Trace => {
                proof { reveal_strlit("TRACE"); }
                "TRACE"
            },
        }
    }
}

} // verus!
