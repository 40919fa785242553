//! Selection of the log level from its configured name.
use vstd::prelude::*;

verus! {

/// How much the process logs.
#[derive(Debug, Clone, Copy, PartialEq, Eq, Structural)]
pub enum LogLevel {
    Debug,
    Info,
    Warn,
    Error,
}

/// What `str::to_lowercase` makes of a text.
pub uninterp spec fn lower_of(s: Seq<char>) -> Seq<char>;

/// Relies on `str::to_lowercase`: the lowercase form depends on the
/// characters alone.
#[verifier::external_body]
fn lowercase(s: &str) -> (r: String)
    ensures
        r@ == lower_of(s@),
{
    s.to_lowercase()
}

/// The level that a lowercase name selects; an unknown name selects `Info`.
pub open spec fn level_of_lowercase(t: Seq<char>) -> LogLevel {
    if t == "debug"@ {
        LogLevel::Debug
    } else if t == "info"@ {
        LogLevel::Info
    } else if t == "warn"@ {
        LogLevel::Warn
    } else if t == "error"@ {
        LogLevel::Error
    } else {
        LogLevel::Info
    }
}

impl LogLevel {
    /// The level that an already lowercase name selects.
    pub fn from_lowercase(t: &str) -> (r: LogLevel)
        ensures
            r == level_of_lowercase(t@),
    {
        let t = t.to_owned();
        if t == "debug".to_owned() {
            LogLevel::Debug
        } else if t == "info".to_owned() {
            LogLevel::Info
        } else if t == "warn".to_owned() {
            LogLevel::Warn
        } else if t == "error".to_owned() {
            LogLevel::Error
        } else {
            LogLevel::Info
        }
    }

    /// The level that a configured name selects, whatever its case.
    pub fn from_name(name: &str) -> (r: LogLevel)
        ensures
            r == level_of_lowercase(lower_of(name@)),
    {
        let t = lowercase(name);
        LogLevel::from_lowercase(t.as_str())
    }
}

} // verus!
