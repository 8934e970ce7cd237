//! The typed errors that message generation can surface.

use vstd::prelude::*;
use vstd::string::StringExecFns;

verus! {

/// Errors that can occur during message generation.
#[derive(Debug, Clone)]
pub enum GoodbyeError {
    /// The message corpus was unusable and the fallback failed too.
    CorpusLoadError(String),
    /// The requested language and the fallback language are both absent.
    InvalidLanguageCodeError(String),
    /// The timezone identifier could not be resolved to a known zone.
    InvalidTimezoneError(String),
    /// A template variable could not be substituted.
    TemplateVariableError(String),
}

impl GoodbyeError {
    /// A human-readable description of the error.
    pub fn message(&self) -> (r: String)
        ensures
            r@ == match self {
                GoodbyeError::CorpusLoadError(s) => "Failed to load corpus: "@ + s@,
                GoodbyeError::InvalidLanguageCodeError(s) => "Invalid language code: "@ + s@,
                GoodbyeError::InvalidTimezoneError(s) => "Invalid timezone: "@ + s@,
                GoodbyeError::TemplateVariableError(s) => "Template variable error: "@ + s@,
            },
    {
        match self {
            GoodbyeError::CorpusLoadError(s) => String::from_str("Failed to load corpus: ").concat(
                s.as_str(),
            ),
            GoodbyeError::InvalidLanguageCodeError(s) => String::from_str(
                "Invalid language code: ",
            ).concat(s.as_str()),
            GoodbyeError::InvalidTimezoneError(s) => String::from_str("Invalid timezone: ").concat(
                s.as_str(),
            ),
            GoodbyeError::TemplateVariableError(s) => String::from_str(
                "Template variable error: ",
            ).concat(s.as_str()),
        }
    }
}

} // verus!
