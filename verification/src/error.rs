//! The error type of the desktop core.

use vstd::prelude::*;

verus! {

/// Errors raised by the desktop core.
#[derive(Debug)]
pub enum ParaError {
    InvalidState(String),
    MissingKey(String),
    Audio(String),
    Asr(String),
    Db(String),
    KeyVault(String),
    LlmDisabled,
    Other(String),
}

/// The text shown for an error.
pub open spec fn spec_error_message(e: ParaError) -> Seq<char> {
    match e {
        ParaError::InvalidState(s) => "invalid state: "@ + s@,
        ParaError::MissingKey(s) => "missing BYOK key for provider: "@ + s@,
        ParaError::Audio(s) => "audio error: "@ + s@,
        ParaError::Asr(s) => "asr error: "@ + s@,
        ParaError::Db(s) => "db error: "@ + s@,
        ParaError::KeyVault(s) => "keyvault error: "@ + s@,
        ParaError::LlmDisabled => "llm disabled at build time (feature flag not enabled)"@,
        ParaError::Other(s) => s@,
    }
}

impl ParaError {
    /// The error's text.
    pub fn message(&self) -> (r: String)
        ensures
            r@ == spec_error_message(*self),
    {
        let (prefix, detail): (&str, Option<&String>) = match self {
            ParaError::InvalidState(s) => ("invalid state: ", Some(s)),
            ParaError::MissingKey(s) => ("missing BYOK key for provider: ", Some(s)),
            ParaError::Audio(s) => ("audio error: ", Some(s)),
            ParaError::Asr(s) => ("asr error: ", Some(s)),
            ParaError::Db(s) => ("db error: ", Some(s)),
            ParaError::KeyVault(s) => ("keyvault error: ", Some(s)),
            ParaError::LlmDisabled => ("llm disabled at build time (feature flag not enabled)", None),
            ParaError::Other(s) => ("", Some(s)),
        };
        let mut out = String::from_str(prefix);
        match detail {
            Some(d) => out.append(d.as_str()),
            None => {},
        }
        proof {
            reveal_strlit("");
        }
        out
    }
}

} // verus!
