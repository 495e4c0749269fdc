//! The protocols.
use vstd::prelude::*;

use crate::text::same_text;

verus! {

/// A protocol that providers speak.
#[derive(Debug, Clone, Copy, PartialEq, Eq, Structural)]
pub enum Protocol {
    OpenAiCompat,
    Anthropic,
}

/// The name of a protocol, which is also its namespace.
pub open spec fn protocol_name(protocol: Protocol) -> Seq<char> {
    match protocol {
        Protocol::OpenAiCompat => "openai_compat"@,
        Protocol::Anthropic => "anthropic"@,
    }
}

/// Whether a protocol may read a namespace: its own, or that of a provider, but
/// never that of another protocol.
pub open spec fn readable(protocol: Protocol, namespace: Seq<char>) -> bool {
    forall|other: Protocol| other != protocol ==> namespace != #[trigger] protocol_name(other)
}

impl Protocol {
    /// The name of the protocol.
    pub fn as_str(self) -> (r: &'static str)
        ensures
            r@ == protocol_name(self),
    {
        match self {
            Protocol::OpenAiCompat => "openai_compat",
            Protocol::Anthropic => "anthropic",
        }
    }

    /// Whether this protocol may read a namespace.
    pub fn may_read(self, namespace: &str) -> (r: bool)
        ensures
            r == readable(self, namespace@),
    {
        let other = match self {
            Protocol::OpenAiCompat => Protocol::Anthropic,
            Protocol::Anthropic => Protocol::OpenAiCompat,
        };
        let r = !same_text(namespace, other.as_str());
        assert(protocol_name(other) == protocol_name(other));
        r
    }
}

} // verus!
