//! The OpenAI-compatible protocol.
use vstd::prelude::*;

use crate::gateway::types::message::Role;
use crate::text::same_text;

pub mod error;
pub mod ordinals;
pub mod provider_overrides;

pub mod request;
pub mod request_laws;
pub mod response;
pub mod response_laws;
pub mod stream;
pub mod translation;
pub mod wire;

verus! {

/// The role a word of the protocol stands for.
pub open spec fn known_role(role: Seq<char>) -> Option<Role> {
    if role == "system"@ {
        Some(Role::System)
    } else if role == "user"@ {
        Some(Role::User)
    } else if role == "assistant"@ {
        Some(Role::Assistant)
    } else if role == "tool"@ {
        Some(Role::Tool)
    } else {
        None
    }
}

/// The word of the protocol for a role.
pub open spec fn role_word(role: Role) -> Seq<char> {
    match role {
        Role::System => "system"@,
        Role::User => "user"@,
        Role::Assistant => "assistant"@,
        Role::Tool => "tool"@,
    }
}

/// Reads a role. One the protocol does not know reads as the user's, and its
/// own spelling is handed back.
pub fn role_from_wire(role: String) -> (r: (Role, Option<String>))
    ensures
        match known_role(role@) {
            Some(known) => r.0 == known && r.1 is None,
            None => r.0 == Role::User && r.1.deep_view() == Some(role@),
        },
{
    if same_text(role.as_str(), "system") {
        (Role::System, None)
    } else if same_text(role.as_str(), "user") {
        (Role::User, None)
    } else if same_text(role.as_str(), "assistant") {
        (Role::Assistant, None)
    } else if same_text(role.as_str(), "tool") {
        (Role::Tool, None)
    } else {
        (Role::User, Some(role))
    }
}

/// Writes a role.
pub fn role_to_wire(role: Role) -> (r: &'static str)
    ensures
        r@ == role_word(role),
{
    match role {
        Role::System => "system",
        Role::User => "user",
        Role::Assistant => "assistant",
        Role::Tool => "tool",
    }
}

/// Every role is read back from its own word, and every known word is the word
/// of the role it stands for.
pub proof fn law_known_roles_round_trip(role: Role, word: Seq<char>)
    ensures
        known_role(role_word(role)) == Some(role),
        known_role(word) matches Some(known) ==> role_word(known) == word,
{
    reveal_strlit("system");
    reveal_strlit("user");
    reveal_strlit("assistant");
    reveal_strlit("tool");
    assert("system"@[0] == 's');
    assert("user"@[0] == 'u');
    assert("assistant"@[0] == 'a');
    assert("tool"@[0] == 't');
}

} // verus!
