//! What single providers add to the protocol's vocabulary of failures.
use vstd::prelude::*;

use crate::error::ErrorKind;
use crate::gateway::error::ErrorMapper;
use crate::text::same_text;

verus! {

/// DeepSeek answers 402 when the balance is used up.
pub struct DeepSeek;

impl ErrorMapper for DeepSeek {
    open spec fn envelope_rule(&self, status: u16, error_type: Option<Seq<char>>) -> Option<
        ErrorKind,
    > {
        if status == 402 {
            Some(ErrorKind::QuotaExceeded)
        } else {
            None
        }
    }

    fn from_code(&self, code: &str) -> (r: Option<ErrorKind>) {
        None
    }

    fn from_status_and_type(&self, status: u16, error_type: Option<&str>) -> (r: Option<
        ErrorKind,
    >) {
        if status == 402 {
            Some(ErrorKind::QuotaExceeded)
        } else {
            None
        }
    }
}

/// OpenCode names an account without credit by its family, under a status that
/// means something else elsewhere.
pub struct OpenCode;

impl ErrorMapper for OpenCode {
    open spec fn envelope_rule(&self, status: u16, error_type: Option<Seq<char>>) -> Option<
        ErrorKind,
    > {
        if error_type == Some("CreditsError"@) {
            Some(ErrorKind::QuotaExceeded)
        } else {
            None
        }
    }

    fn from_code(&self, code: &str) -> (r: Option<ErrorKind>) {
        None
    }

    fn from_status_and_type(&self, status: u16, error_type: Option<&str>) -> (r: Option<
        ErrorKind,
    >) {
        if let Some(error_type) = error_type {
            if same_text(error_type, "CreditsError") {
                return Some(ErrorKind::QuotaExceeded);
            }
        }
        None
    }
}

/// The vocabulary of one provider.
#[derive(Debug, Clone, Copy, PartialEq, Eq, Structural)]
pub enum Override {
    Nothing,
    DeepSeek,
    OpenCode,
}

impl ErrorMapper for Override {
    open spec fn envelope_rule(&self, status: u16, error_type: Option<Seq<char>>) -> Option<
        ErrorKind,
    > {
        match self {
            Override::Nothing => None,
            Override::DeepSeek => DeepSeek.envelope_rule(status, error_type),
            Override::OpenCode => OpenCode.envelope_rule(status, error_type),
        }
    }

    fn from_code(&self, code: &str) -> (r: Option<ErrorKind>) {
        match self {
            Override::Nothing => None,
            Override::DeepSeek => DeepSeek.from_code(code),
            Override::OpenCode => OpenCode.from_code(code),
        }
    }

    fn from_status_and_type(&self, status: u16, error_type: Option<&str>) -> (r: Option<
        ErrorKind,
    >) {
        match self {
            Override::Nothing => None,
            Override::DeepSeek => DeepSeek.from_status_and_type(status, error_type),
            Override::OpenCode => OpenCode.from_status_and_type(status, error_type),
        }
    }
}

/// The vocabulary a provider has of its own.
pub open spec fn override_of(provider: Seq<char>) -> Override {
    if provider == "deepseek"@ {
        Override::DeepSeek
    } else if provider == "opencode"@ {
        Override::OpenCode
    } else {
        Override::Nothing
    }
}

/// Finds the vocabulary a provider has of its own.
pub fn error_mapper(provider: &str) -> (r: Override)
    ensures
        r == override_of(provider@),
{
    if same_text(provider, "deepseek") {
        Override::DeepSeek
    } else if same_text(provider, "opencode") {
        Override::OpenCode
    } else {
        Override::Nothing
    }
}

/// The providers that have a vocabulary of their own.
pub fn overridden_providers() -> (r: Vec<String>)
    ensures
        r.deep_view() == seq!["deepseek"@, "opencode"@],
        forall|i: int| 0 <= i < r@.len() ==> override_of(#[trigger] r@[i]@) != Override::Nothing,
{
    let r = vec!["deepseek".to_owned(), "opencode".to_owned()];
    assert(r.deep_view() =~= seq!["deepseek"@, "opencode"@]);
    r
}

} // verus!
