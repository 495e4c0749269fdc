//! What no field claims, kept under the name of the protocol or the provider
//! that it belongs to.
use vstd::prelude::*;

use crate::json::{distinct, fields1, find, group_find, lemma_find_merge, merge, no_fields, put};
use crate::json::{object1, Fields, FieldsView, Json, JsonView};
use crate::types::{protocol_name, readable, Protocol};

verus! {

/// The fields kept under a namespace.
pub open spec fn bag(ext: FieldsView, namespace: Seq<char>) -> FieldsView {
    match find(ext, namespace) {
        Some(value) => value.fields(),
        None => no_fields(),
    }
}

/// What a protocol reads for a provider: its own bag, and over it the
/// provider's, unless that provider is named like another protocol.
pub open spec fn merged(protocol: Protocol, ext: FieldsView, provider: Seq<char>) -> FieldsView {
    let own = merge(no_fields(), bag(ext, protocol_name(protocol)));
    if readable(protocol, provider) {
        merge(own, bag(ext, provider))
    } else {
        own
    }
}

/// Fields kept under the name of a protocol; an empty bag is not kept.
pub open spec fn kept_under(protocol: Protocol, fields: FieldsView) -> FieldsView {
    if fields.len() == 0 {
        no_fields()
    } else {
        fields1(protocol_name(protocol), JsonView::Object(fields))
    }
}

fn merge_bag(merged: &mut Fields, ext: &Fields, namespace: &str)
    ensures
        final(merged)@ == merge(old(merged)@, bag(ext@, namespace@)),
{
    match ext.get(namespace) {
        Some(Json::Object(fields)) => merged.merge(fields),
        _ => {},
    }
}

/// Reads what a protocol may read for a provider.
pub fn merged_ext(protocol: Protocol, ext: &Fields, provider: &str) -> (r: Fields)
    ensures
        r@ == merged(protocol, ext@, provider@),
{
    let mut fields = Fields::new();
    merge_bag(&mut fields, ext, protocol.as_str());
    if protocol.may_read(provider) {
        merge_bag(&mut fields, ext, provider);
    }
    fields
}

/// Keeps fields under the name of a protocol.
pub fn namespaced(protocol: Protocol, fields: Fields) -> (r: Fields)
    ensures
        r@ == kept_under(protocol, fields@),
{
    if fields.len() == 0 {
        Fields::new()
    } else {
        match object1(protocol.as_str(), Json::Object(fields)) {
            Json::Object(ext) => ext,
            _ => Fields::new(),
        }
    }
}

/// What a protocol kept, it reads back, for whatever provider.
pub proof fn law_a_kept_bag_is_read_back(
    protocol: Protocol,
    fields: FieldsView,
    provider: Seq<char>,
    key: Seq<char>,
)
    requires
        distinct(fields),
    ensures
        find(merged(protocol, kept_under(protocol, fields), provider), key) == find(fields, key),
{
    broadcast use group_find;

    let ext = kept_under(protocol, fields);
    let own = merge(no_fields(), bag(ext, protocol_name(protocol)));
    if fields.len() > 0 {
        assert(bag(ext, protocol_name(protocol)) == fields);
        lemma_find_merge(no_fields(), fields, key);
        if provider == protocol_name(protocol) {
            lemma_find_merge(own, fields, key);
        } else {
            assert(bag(ext, provider) == no_fields());
        }
    } else {
        assert(fields =~= no_fields());
        assert(bag(ext, protocol_name(protocol)) == no_fields());
        assert(bag(ext, provider) == no_fields());
    }
}

/// No protocol reads what another kept, even for a provider that bears the
/// other's name: setting that bag to anything changes nothing.
pub proof fn law_another_protocols_bag_is_never_read(
    protocol: Protocol,
    other: Protocol,
    ext: FieldsView,
    value: JsonView,
    provider: Seq<char>,
)
    requires
        protocol != other,
    ensures
        merged(protocol, put(ext, protocol_name(other), value), provider) == merged(
            protocol,
            ext,
            provider,
        ),
{
    broadcast use group_find;

    lemma_names_differ();
    let after = put(ext, protocol_name(other), value);
    assert(bag(after, protocol_name(protocol)) == bag(ext, protocol_name(protocol)));
    if readable(protocol, provider) {
        assert(provider != protocol_name(other));
        assert(bag(after, provider) == bag(ext, provider));
    }
}

/// A protocol reads the bag of the provider asked for and of no other.
pub proof fn law_another_providers_bag_is_never_read(
    protocol: Protocol,
    ext: FieldsView,
    value: JsonView,
    provider: Seq<char>,
    other: Seq<char>,
)
    requires
        other != provider,
        other != protocol_name(protocol),
    ensures
        merged(protocol, put(ext, other, value), provider) == merged(protocol, ext, provider),
{
    broadcast use group_find;

    let after = put(ext, other, value);
    assert(bag(after, protocol_name(protocol)) == bag(ext, protocol_name(protocol)));
    assert(bag(after, provider) == bag(ext, provider));
}

/// Where a provider's bag and its protocol's hold the same field, the provider's
/// is read; a field of the protocol's alone is read too.
pub proof fn law_the_provider_bag_is_read_over_the_protocols(
    protocol: Protocol,
    ext: FieldsView,
    provider: Seq<char>,
    key: Seq<char>,
)
    requires
        readable(protocol, provider),
        distinct(bag(ext, provider)),
        distinct(bag(ext, protocol_name(protocol))),
    ensures
        find(merged(protocol, ext, provider), key) == match find(bag(ext, provider), key) {
            Some(value) => Some(value),
            None => find(bag(ext, protocol_name(protocol)), key),
        },
{
    broadcast use group_find;

    let own = merge(no_fields(), bag(ext, protocol_name(protocol)));
    lemma_find_merge(no_fields(), bag(ext, protocol_name(protocol)), key);
    lemma_find_merge(own, bag(ext, provider), key);
}

/// The two protocols have different names.
pub proof fn lemma_names_differ()
    ensures
        protocol_name(Protocol::OpenAiCompat) != protocol_name(Protocol::Anthropic),
{
    reveal_strlit("openai_compat");
    reveal_strlit("anthropic");
    assert("openai_compat"@.len() != "anthropic"@.len());
}

/// What one protocol keeps, another reads nothing of, whatever the provider.
pub proof fn law_another_protocol_reads_nothing(
    protocol: Protocol,
    other: Protocol,
    fields: FieldsView,
    provider: Seq<char>,
)
    requires
        protocol != other,
    ensures
        merged(protocol, kept_under(other, fields), provider) == no_fields(),
{
    broadcast use group_find;

    lemma_names_differ();
    let ext = kept_under(other, fields);
    assert(bag(ext, protocol_name(protocol)) =~= no_fields());
    if provider == protocol_name(other) {
        assert(!readable(protocol, provider));
    } else {
        assert(bag(ext, provider) =~= no_fields());
    }
}

} // verus!
