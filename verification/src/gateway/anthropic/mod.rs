//! The Anthropic protocol.
use vstd::prelude::*;

use crate::gateway::types::message::{CacheHint, CacheHintView, Role};
use crate::json::{
    assigned, fields1, group_find, json_string, object1, opt_string, string, Json, JsonView,
};
use crate::text::same_text;

pub mod error;
pub mod exchange;
pub mod laws;
pub mod reassembly;
pub mod request;
pub mod response;
pub mod retelling;
pub mod stream;
pub mod translation;
pub mod turns;
pub mod wire;

verus! {

/// The role a word of the protocol stands for.
pub open spec fn known_role(role: Seq<char>) -> Option<Role> {
    if role == "user"@ {
        Some(Role::User)
    } else if role == "assistant"@ {
        Some(Role::Assistant)
    } else {
        None
    }
}

/// The word of the protocol for a role. It has two; what is not the assistant's
/// is the user's.
pub open spec fn role_word(role: Role) -> Seq<char> {
    match role {
        Role::Assistant => "assistant"@,
        _ => "user"@,
    }
}

/// Reads a role. One the protocol does not know reads as the user's, and its
/// own spelling is handed back.
pub fn role_from_wire(role: String) -> (r: (Role, Option<String>))
    ensures
        match known_role(role@) {
            Some(known) => r.0 == known && r.1 is None,
            None => r.0 == Role::User && r.1.deep_view() == Some(role@),
        },
{
    if same_text(role.as_str(), "user") {
        (Role::User, None)
    } else if same_text(role.as_str(), "assistant") {
        (Role::Assistant, None)
    } else {
        (Role::User, Some(role))
    }
}

/// Writes a role.
pub fn role_to_wire(role: Role) -> (r: &'static str)
    ensures
        r@ == role_word(role),
{
    match role {
        Role::Assistant => "assistant",
        _ => "user",
    }
}

/// Every known word is the word of the role it stands for.
pub proof fn law_known_roles_round_trip(word: Seq<char>)
    ensures
        known_role(word) matches Some(known) ==> role_word(known) == word,
{
}

/// The hint a cache control stands for.
pub open spec fn hint_in(control: JsonView) -> CacheHintView {
    CacheHintView { ttl: control.str_at("ttl"@) }
}

/// Reads a cache control.
pub fn cache_hint(control: &Json) -> (r: CacheHint)
    ensures
        r@ == hint_in(control@),
{
    CacheHint { ttl: control.str_at("ttl") }
}

/// The cache control a hint is rendered as.
pub open spec fn control_for(hint: CacheHintView) -> JsonView {
    JsonView::Object(
        assigned(fields1("type"@, string("ephemeral"@)), "ttl"@, opt_string(hint.ttl)),
    )
}

/// Writes a cache control.
pub fn cache_control(hint: &CacheHint) -> (r: Json)
    ensures
        r@ == control_for(hint@),
{
    let mut fields = object1("type", Json::text("ephemeral")).fields();
    fields.set("ttl", json_string(&hint.ttl));
    Json::Object(fields)
}

/// A hint is read back from the control it is rendered as.
pub proof fn law_a_cache_hint_round_trips(hint: CacheHintView)
    ensures
        hint_in(control_for(hint)) == hint,
{
    broadcast use group_find;

}

} // verus!
