//! What a provider failure means, read from the signals it carries.
use vstd::prelude::*;

use crate::error::ErrorKind;

verus! {

/// A vocabulary of failures: a protocol's, or what one provider adds to it.
///
/// There are two tiers. A `code` is the provider naming its own failure; the
/// status and the family together are the envelope it came in.
pub trait ErrorMapper {
    /// What this vocabulary makes of a code: nothing, unless it says otherwise.
    open spec fn code_rule(&self, code: Seq<char>) -> Option<ErrorKind> {
        None
    }

    /// What this vocabulary makes of an envelope: nothing, unless it says
    /// otherwise.
    open spec fn envelope_rule(&self, status: u16, error_type: Option<Seq<char>>) -> Option<
        ErrorKind,
    > {
        None
    }

    /// Reads a code.
    fn from_code(&self, code: &str) -> (r: Option<ErrorKind>)
        ensures
            r == self.code_rule(code@),
    ;

    /// Reads an envelope.
    fn from_status_and_type(&self, status: u16, error_type: Option<&str>) -> (r: Option<ErrorKind>)
        ensures
            r == self.envelope_rule(status, error_type.deep_view()),
    ;
}

/// A vocabulary that adds nothing: the protocol's stands.
pub struct MatchesProtocol;

impl ErrorMapper for MatchesProtocol {
    fn from_code(&self, code: &str) -> (r: Option<ErrorKind>) {
        None
    }

    fn from_status_and_type(&self, status: u16, error_type: Option<&str>) -> (r: Option<
        ErrorKind,
    >) {
        None
    }
}

/// What a status means in HTTP, where nothing more is known.
pub open spec fn http_kind(status: u16) -> ErrorKind {
    if status == 400 || status == 422 {
        ErrorKind::InvalidRequest
    } else if 500 <= status <= 599 {
        ErrorKind::ServerError
    } else {
        ErrorKind::Unknown
    }
}

/// What a code means: to the provider first, then to the protocol.
pub open spec fn code_kind<P: ErrorMapper, Q: ErrorMapper>(
    provider: P,
    protocol: Q,
    code: Option<Seq<char>>,
) -> Option<ErrorKind> {
    match code {
        Some(code) => match provider.code_rule(code) {
            Some(kind) => Some(kind),
            None => protocol.code_rule(code),
        },
        None => None,
    }
}

/// What an envelope means: to the provider first, then to the protocol.
pub open spec fn envelope_kind<P: ErrorMapper, Q: ErrorMapper>(
    provider: P,
    protocol: Q,
    status: u16,
    error_type: Option<Seq<char>>,
) -> Option<ErrorKind> {
    match provider.envelope_rule(status, error_type) {
        Some(kind) => Some(kind),
        None => protocol.envelope_rule(status, error_type),
    }
}

/// What a failure means: by its code, else by its envelope, else by HTTP.
pub open spec fn kind_of<P: ErrorMapper, Q: ErrorMapper>(
    provider: P,
    protocol: Q,
    status: u16,
    error_type: Option<Seq<char>>,
    code: Option<Seq<char>>,
) -> ErrorKind {
    match code_kind(provider, protocol, code) {
        Some(kind) => kind,
        None => match envelope_kind(provider, protocol, status, error_type) {
            Some(kind) => kind,
            None => http_kind(status),
        },
    }
}

/// Reads what a failure means.
pub fn classify<P: ErrorMapper, Q: ErrorMapper>(
    provider: &P,
    protocol: &Q,
    status: u16,
    error_type: Option<&str>,
    code: Option<&str>,
) -> (r: ErrorKind)
    ensures
        r == kind_of(*provider, *protocol, status, error_type.deep_view(), code.deep_view()),
{
    if let Some(code) = code {
        if let Some(kind) = provider.from_code(code) {
            return kind;
        }
        if let Some(kind) = protocol.from_code(code) {
            return kind;
        }
    }
    if let Some(kind) = provider.from_status_and_type(status, error_type) {
        return kind;
    }
    if let Some(kind) = protocol.from_status_and_type(status, error_type) {
        return kind;
    }
    if status == 400 || status == 422 {
        ErrorKind::InvalidRequest
    } else if 500 <= status && status <= 599 {
        ErrorKind::ServerError
    } else {
        ErrorKind::Unknown
    }
}

/// A code that either vocabulary reads decides, whatever the envelope says: no
/// envelope rule, not even the provider's own, outranks it.
pub proof fn law_a_code_outranks_every_envelope<P: ErrorMapper, Q: ErrorMapper>(
    provider: P,
    protocol: Q,
    code: Seq<char>,
    status1: u16,
    type1: Option<Seq<char>>,
    status2: u16,
    type2: Option<Seq<char>>,
)
    requires
        provider.code_rule(code) is Some || protocol.code_rule(code) is Some,
    ensures
        kind_of(provider, protocol, status1, type1, Some(code)) == kind_of(
            provider,
            protocol,
            status2,
            type2,
            Some(code),
        ),
{
}

/// Within a tier the provider answers before the protocol.
pub proof fn law_the_provider_answers_first<P: ErrorMapper, Q: ErrorMapper, R: ErrorMapper>(
    provider: P,
    protocol: Q,
    other: R,
    status: u16,
    error_type: Option<Seq<char>>,
    code: Seq<char>,
)
    ensures
        provider.code_rule(code) matches Some(kind) ==> kind_of(
            provider,
            protocol,
            status,
            error_type,
            Some(code),
        ) == kind,
        provider.envelope_rule(status, error_type) matches Some(kind) ==> kind_of(
            provider,
            protocol,
            status,
            error_type,
            None,
        ) == kind && kind_of(provider, other, status, error_type, None) == kind,
{
}

/// A provider that adds nothing inherits its protocol whole.
pub proof fn law_no_vocabulary_inherits_the_protocol<Q: ErrorMapper>(
    protocol: Q,
    status: u16,
    error_type: Option<Seq<char>>,
    code: Option<Seq<char>>,
)
    ensures
        kind_of(MatchesProtocol, protocol, status, error_type, code) == kind_of(
            protocol,
            protocol,
            status,
            error_type,
            code,
        ),
{
}

} // verus!
