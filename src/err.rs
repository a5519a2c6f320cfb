use vstd::prelude::*;
use vstd::string::*;

verus! {

/// The one fatal configuration error: the engine could not be installed.
#[derive(Debug)]
pub enum LoggerError {
    BuildError(String),
}

impl LoggerError {
    /// `"Logger Error: "` followed by the cause.
    pub fn message(&self) -> (r: String)
        ensures
            r@ == seq!['L', 'o', 'g', 'g', 'e', 'r', ' ', 'E', 'r', 'r', 'o', 'r', ':', ' '] + match self {
                LoggerError::BuildError(m) => m@,
            },
    {
        proof { reveal_strlit("Logger Error: "); }
        match self {
            LoggerError::BuildError(m) => String::from_str("Logger Error: ").concat(m.as_str()),
        }
    }
}

} // verus!
