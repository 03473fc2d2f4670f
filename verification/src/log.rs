use vstd::prelude::*;

verus! {

/// The severity of a log entry.
#[derive(Debug, Clone, Copy, PartialEq, Eq, Structural)]
pub enum LogLevel {
    Info,
    Warning,
    Error,
}

impl LogLevel {
    /// The display name of the severity.
    pub fn name(&self) -> (r: &'static str)
        ensures
            match *self {
                LogLevel::Info => r@ == "INFO"@,
                LogLevel::Warning => r@ == "WARNING"@,
                LogLevel::Error => r@ == "ERROR"@,
            },
    {
        match self {
            LogLevel::Info => "INFO",
            LogLevel::Warning => "WARNING",
            LogLevel::Error => "ERROR",
        }
    }
}

} // verus!
