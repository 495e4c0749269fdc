//! What holds of a reply that is read and rendered by this one protocol.
use vstd::prelude::*;

use crate::gateway::ext::{law_a_kept_bag_is_read_back, merged};
use crate::gateway::types::message::ContentBlockView;
use crate::gateway::types::stream::{CompletionDeltaView, ContentDeltaView};
use crate::json::{
    count, distinct, fields2, find, group_find, index_of, lemma_distinct_put,
    lemma_distinct_sans_null, lemma_distinct_without, lemma_index_of_bounds, put, sans_null,
    settled, string, without, FieldsView, JsonView,
};
use crate::json_text::keys_distinct;
use crate::meaning::{lemma_same_array, lemma_same_object, meaning, meaning_at, same_json};
use crate::types::Protocol;

use super::law_known_roles_round_trip;
use super::ordinals::rank;
use super::request::{function_call, rendered_role, role_residue, text_at};
use super::response::{
    detail_count, envelope_typed, ingested_choice, ingested_reply_call, ingested_reply_message,
    ingested_response, ingested_usage, joined_text, message_typed, only_named, plain_call,
    reasoning_blocks, rendered_choice, rendered_choices, rendered_index, rendered_reply_message,
    rendered_response, rendered_usage, reply_blocks, reply_calls, reply_message_fields,
    reply_residue, response_residue, sans_count, sans_details, string_or_null, text_blocks,
    usage_in, with_count, with_details, with_envelope, with_usage,
};
use super::stream::{
    call_chunk, delta_fields, delta_residue, fragments_of, ingested_call_chunk, ingested_chunk,
    ingested_delta, ingested_stream_choice, plain_chunk, reasoning_deltas, rendered_chunk,
    rendered_delta, rendered_fragments, rendered_stream_choice, rendered_stream_choices,
    text_deltas,
};
use super::wire::{
    absent_or, all_items, annotations_shape, audio_shape, call_chunk_shape, call_chunks_shape,
    call_shape, calls_shape, choice_shape, choices_shape, chunk_shape, delta_shape, envelope_shape,
    legacy_call_shape, moderation_shape, nullable_string, present, reply_message_shape,
    response_shape, stream_choice_shape, stream_choices_shape, usage_shape,
};

verus! {

/// The names differ.
proof fn lemma_message_keys()
    ensures
        "role"@ != "content"@,
        "role"@ != "refusal"@,
        "role"@ != "tool_calls"@,
        "role"@ != "annotations"@,
        "role"@ != "audio"@,
        "role"@ != "function_call"@,
        "content"@ != "refusal"@,
        "content"@ != "tool_calls"@,
        "content"@ != "annotations"@,
        "content"@ != "audio"@,
        "content"@ != "function_call"@,
        "refusal"@ != "tool_calls"@,
        "refusal"@ != "annotations"@,
        "refusal"@ != "audio"@,
        "refusal"@ != "function_call"@,
        "tool_calls"@ != "annotations"@,
        "tool_calls"@ != "audio"@,
        "tool_calls"@ != "function_call"@,
        "annotations"@ != "audio"@,
        "annotations"@ != "function_call"@,
        "audio"@ != "function_call"@,
{
    reveal_strlit("role");
    reveal_strlit("content");
    reveal_strlit("refusal");
    reveal_strlit("tool_calls");
    reveal_strlit("annotations");
    reveal_strlit("audio");
    reveal_strlit("function_call");
    assert("role"@.len() != "content"@.len());
    assert("role"@.len() != "refusal"@.len());
    assert("role"@.len() != "tool_calls"@.len());
    assert("role"@.len() != "annotations"@.len());
    assert("role"@.len() != "audio"@.len());
    assert("role"@.len() != "function_call"@.len());
    assert("content"@[0] != "refusal"@[0]);
    assert("content"@.len() != "tool_calls"@.len());
    assert("content"@.len() != "annotations"@.len());
    assert("content"@.len() != "audio"@.len());
    assert("content"@.len() != "function_call"@.len());
    assert("refusal"@.len() != "tool_calls"@.len());
    assert("refusal"@.len() != "annotations"@.len());
    assert("refusal"@.len() != "audio"@.len());
    assert("refusal"@.len() != "function_call"@.len());
    assert("tool_calls"@.len() != "annotations"@.len());
    assert("tool_calls"@.len() != "audio"@.len());
    assert("tool_calls"@.len() != "function_call"@.len());
    assert("annotations"@.len() != "audio"@.len());
    assert("annotations"@.len() != "function_call"@.len());
    assert("audio"@.len() != "function_call"@.len());
}

/// The names differ.
proof fn lemma_call_keys()
    ensures
        "id"@ != "type"@,
        "id"@ != "function"@,
        "id"@ != "arguments"@,
        "id"@ != "name"@,
        "id"@ != "index"@,
        "type"@ != "function"@,
        "type"@ != "arguments"@,
        "type"@ != "name"@,
        "type"@ != "index"@,
        "function"@ != "arguments"@,
        "function"@ != "name"@,
        "function"@ != "index"@,
        "arguments"@ != "name"@,
        "arguments"@ != "index"@,
        "name"@ != "index"@,
{
    reveal_strlit("id");
    reveal_strlit("type");
    reveal_strlit("function");
    reveal_strlit("arguments");
    reveal_strlit("name");
    reveal_strlit("index");
    assert("id"@.len() != "type"@.len());
    assert("id"@.len() != "function"@.len());
    assert("id"@.len() != "arguments"@.len());
    assert("id"@.len() != "name"@.len());
    assert("id"@.len() != "index"@.len());
    assert("type"@.len() != "function"@.len());
    assert("type"@.len() != "arguments"@.len());
    assert("type"@[0] != "name"@[0]);
    assert("type"@.len() != "index"@.len());
    assert("function"@.len() != "arguments"@.len());
    assert("function"@.len() != "name"@.len());
    assert("function"@.len() != "index"@.len());
    assert("arguments"@.len() != "name"@.len());
    assert("arguments"@.len() != "index"@.len());
    assert("name"@.len() != "index"@.len());
}

/// The names differ.
proof fn lemma_choice_keys()
    ensures
        "index"@ != "finish_reason"@,
        "index"@ != "message"@,
        "index"@ != "delta"@,
        "index"@ != "logprobs"@,
        "finish_reason"@ != "message"@,
        "finish_reason"@ != "delta"@,
        "finish_reason"@ != "logprobs"@,
        "message"@ != "delta"@,
        "message"@ != "logprobs"@,
        "delta"@ != "logprobs"@,
{
    reveal_strlit("index");
    reveal_strlit("finish_reason");
    reveal_strlit("message");
    reveal_strlit("delta");
    reveal_strlit("logprobs");
    assert("index"@.len() != "finish_reason"@.len());
    assert("index"@.len() != "message"@.len());
    assert("index"@[0] != "delta"@[0]);
    assert("index"@.len() != "logprobs"@.len());
    assert("finish_reason"@.len() != "message"@.len());
    assert("finish_reason"@.len() != "delta"@.len());
    assert("finish_reason"@.len() != "logprobs"@.len());
    assert("message"@.len() != "delta"@.len());
    assert("message"@.len() != "logprobs"@.len());
    assert("delta"@.len() != "logprobs"@.len());
}

/// The names differ.
proof fn lemma_usage_keys()
    ensures
        "completion_tokens"@ != "prompt_tokens"@,
        "completion_tokens"@ != "total_tokens"@,
        "completion_tokens"@ != "prompt_tokens_details"@,
        "completion_tokens"@ != "completion_tokens_details"@,
        "prompt_tokens"@ != "total_tokens"@,
        "prompt_tokens"@ != "prompt_tokens_details"@,
        "prompt_tokens"@ != "completion_tokens_details"@,
        "total_tokens"@ != "prompt_tokens_details"@,
        "total_tokens"@ != "completion_tokens_details"@,
        "prompt_tokens_details"@ != "completion_tokens_details"@,
{
    reveal_strlit("completion_tokens");
    reveal_strlit("prompt_tokens");
    reveal_strlit("total_tokens");
    reveal_strlit("prompt_tokens_details");
    reveal_strlit("completion_tokens_details");
    assert("completion_tokens"@.len() != "prompt_tokens"@.len());
    assert("completion_tokens"@.len() != "total_tokens"@.len());
    assert("completion_tokens"@.len() != "prompt_tokens_details"@.len());
    assert("completion_tokens"@.len() != "completion_tokens_details"@.len());
    assert("prompt_tokens"@.len() != "total_tokens"@.len());
    assert("prompt_tokens"@.len() != "prompt_tokens_details"@.len());
    assert("prompt_tokens"@.len() != "completion_tokens_details"@.len());
    assert("total_tokens"@.len() != "prompt_tokens_details"@.len());
    assert("total_tokens"@.len() != "completion_tokens_details"@.len());
    assert("prompt_tokens_details"@.len() != "completion_tokens_details"@.len());
}

/// The names differ.
proof fn lemma_detail_keys()
    ensures
        "cached_tokens"@ != "cache_write_tokens"@,
        "cached_tokens"@ != "reasoning_tokens"@,
        "cache_write_tokens"@ != "reasoning_tokens"@,
{
    reveal_strlit("cached_tokens");
    reveal_strlit("cache_write_tokens");
    reveal_strlit("reasoning_tokens");
    assert("cached_tokens"@.len() != "cache_write_tokens"@.len());
    assert("cached_tokens"@.len() != "reasoning_tokens"@.len());
    assert("cache_write_tokens"@.len() != "reasoning_tokens"@.len());
}

/// The names differ.
proof fn lemma_envelope_keys()
    ensures
        "id"@ != "choices"@,
        "id"@ != "created"@,
        "id"@ != "model"@,
        "id"@ != "usage"@,
        "id"@ != "object"@,
        "id"@ != "moderation"@,
        "id"@ != "service_tier"@,
        "id"@ != "system_fingerprint"@,
        "choices"@ != "created"@,
        "choices"@ != "model"@,
        "choices"@ != "usage"@,
        "choices"@ != "object"@,
        "choices"@ != "moderation"@,
        "choices"@ != "service_tier"@,
        "choices"@ != "system_fingerprint"@,
        "created"@ != "model"@,
        "created"@ != "usage"@,
        "created"@ != "object"@,
        "created"@ != "moderation"@,
        "created"@ != "service_tier"@,
        "created"@ != "system_fingerprint"@,
        "model"@ != "usage"@,
        "model"@ != "object"@,
        "model"@ != "moderation"@,
        "model"@ != "service_tier"@,
        "model"@ != "system_fingerprint"@,
        "usage"@ != "object"@,
        "usage"@ != "moderation"@,
        "usage"@ != "service_tier"@,
        "usage"@ != "system_fingerprint"@,
        "object"@ != "moderation"@,
        "object"@ != "service_tier"@,
        "object"@ != "system_fingerprint"@,
        "moderation"@ != "service_tier"@,
        "moderation"@ != "system_fingerprint"@,
        "service_tier"@ != "system_fingerprint"@,
{
    reveal_strlit("id");
    reveal_strlit("choices");
    reveal_strlit("created");
    reveal_strlit("model");
    reveal_strlit("usage");
    reveal_strlit("object");
    reveal_strlit("moderation");
    reveal_strlit("service_tier");
    reveal_strlit("system_fingerprint");
    assert("id"@.len() != "choices"@.len());
    assert("id"@.len() != "created"@.len());
    assert("id"@.len() != "model"@.len());
    assert("id"@.len() != "usage"@.len());
    assert("id"@.len() != "object"@.len());
    assert("id"@.len() != "moderation"@.len());
    assert("id"@.len() != "service_tier"@.len());
    assert("id"@.len() != "system_fingerprint"@.len());
    assert("choices"@[1] != "created"@[1]);
    assert("choices"@.len() != "model"@.len());
    assert("choices"@.len() != "usage"@.len());
    assert("choices"@.len() != "object"@.len());
    assert("choices"@.len() != "moderation"@.len());
    assert("choices"@.len() != "service_tier"@.len());
    assert("choices"@.len() != "system_fingerprint"@.len());
    assert("created"@.len() != "model"@.len());
    assert("created"@.len() != "usage"@.len());
    assert("created"@.len() != "object"@.len());
    assert("created"@.len() != "moderation"@.len());
    assert("created"@.len() != "service_tier"@.len());
    assert("created"@.len() != "system_fingerprint"@.len());
    assert("model"@[0] != "usage"@[0]);
    assert("model"@.len() != "object"@.len());
    assert("model"@.len() != "moderation"@.len());
    assert("model"@.len() != "service_tier"@.len());
    assert("model"@.len() != "system_fingerprint"@.len());
    assert("usage"@.len() != "object"@.len());
    assert("usage"@.len() != "moderation"@.len());
    assert("usage"@.len() != "service_tier"@.len());
    assert("usage"@.len() != "system_fingerprint"@.len());
    assert("object"@.len() != "moderation"@.len());
    assert("object"@.len() != "service_tier"@.len());
    assert("object"@.len() != "system_fingerprint"@.len());
    assert("moderation"@.len() != "service_tier"@.len());
    assert("moderation"@.len() != "system_fingerprint"@.len());
    assert("service_tier"@.len() != "system_fingerprint"@.len());
}

/// No field has a name that is none of these.
proof fn lemma_only_named(
    fields: FieldsView,
    a: Seq<char>,
    b: Seq<char>,
    c: Seq<char>,
    key: Seq<char>,
)
    requires
        only_named(fields, a, b, c),
        key != a,
        key != b,
        key != c,
    ensures
        find(fields, key) is None,
{
    lemma_index_of_bounds(fields, key);
}

/// The value of a field of a value whose objects name no field twice is such a
/// value too.
proof fn lemma_field_distinct(value: JsonView, key: Seq<char>)
    requires
        keys_distinct(value),
        value.get(key) is Some,
    ensures
        keys_distinct(value.get(key)->0),
{
    lemma_index_of_bounds(value.fields(), key);
    let at = index_of(value.fields(), key) as int;
    assert(keys_distinct(value.fields()[at].1));
}

proof fn lemma_item_distinct(value: JsonView, key: Seq<char>, i: int)
    requires
        keys_distinct(value),
        0 <= i < value.items_at(key).len(),
    ensures
        keys_distinct(value.items_at(key)[i]),
{
    lemma_field_distinct(value, key);
}

// ---------------------------------------------------------------------------
// Whole replies
// ---------------------------------------------------------------------------

/// The message with its content and its refusal, which are `null` where the
/// provider left them out. Calls that are `null` mean no more than absent ones.
pub open spec fn filled_message(message: JsonView) -> JsonView {
    let f = sans_null(message.fields(), "tool_calls"@);
    let f = settled(f, "content"@, find(f, "content"@) is Some, Some(JsonView::Null));
    JsonView::Object(
        settled(f, "refusal"@, find(f, "refusal"@) is Some, Some(JsonView::Null)),
    )
}

/// The choice with its message filled.
pub open spec fn filled_choice(choice: JsonView) -> JsonView {
    JsonView::Object(
        put(choice.fields(), "message"@, filled_message(choice.get("message"@)->0)),
    )
}

/// The reply with its messages filled. A fingerprint that is `null` means no more
/// than an absent one.
pub open spec fn filled_response(response: JsonView) -> JsonView {
    JsonView::Object(
        put(
            sans_null(response.fields(), "system_fingerprint"@),
            "choices"@,
            JsonView::Array(
                response.items_at("choices"@).map_values(|c: JsonView| filled_choice(c)),
            ),
        ),
    )
}

/// A reply: a document of its shape, in which no object names a field twice.
pub open spec fn well_formed_response(response: JsonView) -> bool {
    response_shape(response) && keys_distinct(response)
}

proof fn lemma_text_then_none(a: Seq<ContentBlockView>, b: Seq<ContentBlockView>)
    requires
        forall|i: int| 0 <= i < b.len() ==> !(#[trigger] b[i] is Text),
    ensures
        joined_text(a + b) == joined_text(a),
    decreases b.len(),
{
    if b.len() == 0 {
        assert(a + b =~= a);
    } else {
        let rest = b.drop_last();
        assert forall|i: int| 0 <= i < rest.len() implies !(#[trigger] rest[i] is Text) by {
            assert(rest[i] == b[i]);
        }
        lemma_text_then_none(a, rest);
        assert((a + b).drop_last() =~= a + rest);
        assert((a + b).last() == b[b.len() - 1]);
    }
}

/// The text of a message's blocks is its content.
proof fn lemma_joined_text(message: JsonView)
    ensures
        joined_text(reply_blocks(message)) == message.str_at("content"@),
{
    let calls = message.items_at("tool_calls"@).map_values(
        |call: JsonView| ingested_reply_call(call),
    );
    let none = Seq::<ContentBlockView>::empty();
    let reasoning = reasoning_blocks(message);
    let text = text_blocks(message);
    assert forall|i: int| 0 <= i < calls.len() implies !(#[trigger] calls[i] is Text) by {
        assert(calls[i] == ingested_reply_call(message.items_at("tool_calls"@)[i]));
    }
    lemma_text_then_none(reasoning + text, calls);
    lemma_text_then_none(none, reasoning);
    assert(none + reasoning =~= reasoning);
    assert(joined_text(reasoning) is None);
    match message.str_at("content"@) {
        Some(content) => {
            assert((reasoning + text).drop_last() =~= reasoning);
            assert((reasoning + text).last() == ContentBlockView::Text {
                text: content,
                cache: None,
            });
        },
        None => {
            assert(reasoning + text =~= reasoning);
        },
    }
}

/// What a call of a reply is rendered as.
pub open spec fn call_again(call: JsonView) -> JsonView {
    if plain_call(call) {
        function_call(
            call.str_at("id"@)->0,
            call.str_in("function"@, "name"@)->0,
            call.str_in("function"@, "arguments"@)->0,
        )
    } else {
        call
    }
}

proof fn lemma_calls_again(head: Seq<ContentBlockView>, calls: Seq<JsonView>)
    requires
        all_items(calls, |v: JsonView| call_shape(v)),
    ensures
        reply_calls(head + calls.map_values(|call: JsonView| ingested_reply_call(call)))
            == reply_calls(head) + calls.map_values(|call: JsonView| call_again(call)),
    decreases calls.len(),
{
    let blocks = calls.map_values(|call: JsonView| ingested_reply_call(call));
    let again = calls.map_values(|call: JsonView| call_again(call));
    if calls.len() == 0 {
        assert(head + blocks =~= head);
        assert(reply_calls(head) + again =~= reply_calls(head));
    } else {
        let rest = calls.drop_last();
        assert forall|i: int| 0 <= i < rest.len() implies call_shape(#[trigger] rest[i]) by {
            assert(rest[i] == calls[i]);
        }
        lemma_calls_again(head, rest);
        let last = calls[calls.len() - 1];
        assert(call_shape(last));
        assert((head + blocks).drop_last() =~= head + rest.map_values(
            |call: JsonView| ingested_reply_call(call),
        ));
        assert((head + blocks).last() == ingested_reply_call(last));
        assert(reply_calls(head + blocks) =~= reply_calls(head) + again);
    }
}

/// A call of a reply is rendered as the same JSON.
proof fn lemma_call_again(call: JsonView)
    ensures
        same_json(call_again(call), call),
{
    broadcast use group_find;

    if plain_call(call) {
        lemma_call_keys();
        let function = call.get("function"@)->0;
        let id = call.str_at("id"@)->0;
        let name = call.str_in("function"@, "name"@)->0;
        let arguments = call.str_in("function"@, "arguments"@)->0;
        let made = fields2("arguments"@, string(arguments), "name"@, string(name));
        assert(function is Object);
        assert forall|key: Seq<char>| #[trigger]
            meaning_at(made, key) == meaning_at(function.fields(), key) by {
            if key != "arguments"@ && key != "name"@ {
                lemma_only_named(function.fields(), "arguments"@, "name"@, "name"@, key);
            }
        }
        lemma_same_object(made, function.fields());
        let whole = function_call(id, name, arguments).fields();
        assert forall|key: Seq<char>| #[trigger]
            meaning_at(whole, key) == meaning_at(call.fields(), key) by {
            if key != "id"@ && key != "type"@ && key != "function"@ {
                lemma_only_named(call.fields(), "id"@, "type"@, "function"@, key);
            }
        }
        lemma_same_object(whole, call.fields());
    }
}

proof fn lemma_no_head_calls(message: JsonView)
    ensures
        reply_calls(reasoning_blocks(message) + text_blocks(message)).len() == 0,
{
    let reasoning = reasoning_blocks(message);
    let text = text_blocks(message);
    let both = reasoning + text;
    let none = Seq::<ContentBlockView>::empty();
    assert(reply_calls(none).len() == 0);
    if reasoning.len() > 0 {
        assert(reasoning.drop_last() =~= none);
    } else {
        assert(reasoning =~= none);
    }
    assert(reply_calls(reasoning).len() == 0);
    if text.len() > 0 {
        assert(both.drop_last() =~= reasoning);
    } else {
        assert(both =~= reasoning);
    }
}

/// Fields of their types stay.
proof fn lemma_message_typed(fields: FieldsView, key: Seq<char>)
    requires
        absent_or(JsonView::Object(fields), "annotations"@, |v: JsonView| annotations_shape(v)),
        absent_or(JsonView::Object(fields), "audio"@, |v: JsonView| audio_shape(v)),
        absent_or(JsonView::Object(fields), "function_call"@, |v: JsonView| legacy_call_shape(v)),
    ensures
        find(message_typed(fields), key) == find(fields, key),
{
    broadcast use group_find;

    lemma_message_keys();
}

/// Fields of their types stay, but for a fingerprint that is `null`.
proof fn lemma_envelope_typed(fields: FieldsView, key: Seq<char>)
    requires
        absent_or(JsonView::Object(fields), "moderation"@, |v: JsonView| moderation_shape(v)),
        absent_or(JsonView::Object(fields), "service_tier"@, |v: JsonView| nullable_string(v)),
        absent_or(
            JsonView::Object(fields),
            "system_fingerprint"@,
            |v: JsonView| nullable_string(v),
        ),
    ensures
        find(envelope_typed(fields), key) == find(sans_null(fields, "system_fingerprint"@), key),
{
    broadcast use group_find;

    lemma_envelope_keys();
}

/// What becomes of each field of a message.
proof fn lemma_reply_fields(
    message: JsonView,
    kept: FieldsView,
    calls: Seq<JsonView>,
    key: Seq<char>,
)
    requires
        reply_message_shape(message),
        forall|k: Seq<char>| #[trigger] find(kept, k) == find(reply_residue(message), k),
        calls.len() == message.items_at("tool_calls"@).len(),
        same_json(JsonView::Array(calls), JsonView::Array(message.items_at("tool_calls"@))),
    ensures
        meaning_at(
            reply_message_fields(
                kept,
                ingested_reply_message(message).role,
                message.str_at("content"@),
                calls,
            ),
            key,
        ) == meaning_at(filled_message(message).fields(), key),
{
    broadcast use group_find;

    lemma_message_keys();
    let fields = message.fields();
    let residue = reply_residue(message);
    let role = ingested_reply_message(message).role;
    let word = message.str_at("role"@)->0;
    law_known_roles_round_trip(role, word);
    assert(find(kept, "role"@) == find(residue, "role"@));
    assert(rendered_role(kept, role) == word);
    assert(find(kept, "refusal"@) == find(residue, "refusal"@));
    let bare = put(
        put(put(kept, "role"@, string(word)), "content"@, string_or_null(message.str_at("content"@))),
        "refusal"@,
        string_or_null(text_at(kept, "refusal"@)),
    );
    assert(find(bare, "annotations"@) == find(fields, "annotations"@)) by {
        assert(find(kept, "annotations"@) == find(residue, "annotations"@));
    }
    assert(find(bare, "audio"@) == find(fields, "audio"@)) by {
        assert(find(kept, "audio"@) == find(residue, "audio"@));
    }
    assert(find(bare, "function_call"@) == find(fields, "function_call"@)) by {
        assert(find(kept, "function_call"@) == find(residue, "function_call"@));
    }
    lemma_message_typed(bare, key);
    assert(find(kept, key) == find(residue, key));
    let items = message.items_at("tool_calls"@);
    if key == "tool_calls"@ && items.len() > 0 {
        assert(find(fields, key) == Some(JsonView::Array(items)));
    }
}

/// A message of a reply is rendered as the same JSON.
proof fn lemma_reply_message(message: JsonView, provider: Seq<char>)
    requires
        reply_message_shape(message),
        keys_distinct(message),
    ensures
        same_json(
            rendered_reply_message(ingested_reply_message(message), provider),
            filled_message(message),
        ),
{
    lemma_joined_text(message);
    lemma_no_head_calls(message);
    let fields = message.fields();
    let items = message.items_at("tool_calls"@);
    let head = reasoning_blocks(message) + text_blocks(message);
    let again = items.map_values(|call: JsonView| call_again(call));
    assert(all_items(items, |v: JsonView| call_shape(v))) by {
        match message.get("tool_calls"@) {
            Some(JsonView::Array(calls)) => {
                assert(calls_shape(JsonView::Array(calls)));
            },
            _ => {},
        }
    }
    lemma_calls_again(head, items);
    let view = ingested_reply_message(message);
    assert(reply_calls(view.content) =~= again);
    lemma_distinct_without(fields, "role"@);
    let f1 = role_residue(fields);
    lemma_distinct_without(f1, "content"@);
    let f2 = without(f1, "content"@);
    lemma_distinct_sans_null(f2, "refusal"@);
    let f3 = sans_null(f2, "refusal"@);
    lemma_distinct_sans_null(f3, "tool_calls"@);
    let f4 = sans_null(f3, "tool_calls"@);
    lemma_distinct_without(f4, "tool_calls"@);
    let residue = reply_residue(message);
    let kept = merged(Protocol::OpenAiCompat, view.ext, provider);
    assert forall|key: Seq<char>| #[trigger] find(kept, key) == find(residue, key) by {
        law_a_kept_bag_is_read_back(Protocol::OpenAiCompat, residue, provider, key);
    }
    assert forall|i: int| 0 <= i < items.len() implies same_json(#[trigger] again[i], items[i]) by {
        assert(again[i] == call_again(items[i]));
        lemma_call_again(items[i]);
    }
    lemma_same_array(again, items);
    let out = reply_message_fields(kept, view.role, message.str_at("content"@), again);
    let goal = filled_message(message).fields();
    assert forall|key: Seq<char>| #[trigger] meaning_at(out, key) == meaning_at(goal, key) by {
        lemma_reply_fields(message, kept, again, key);
    }
    lemma_same_object(out, goal);
}

/// A choice of a reply is rendered as the same JSON.
proof fn lemma_choice(choice: JsonView, position: int, provider: Seq<char>)
    requires
        choice_shape(choice),
        keys_distinct(choice),
    ensures
        same_json(
            rendered_choice(ingested_choice(choice), position, provider),
            filled_choice(choice),
        ),
{
    broadcast use group_find;

    lemma_choice_keys();
    let fields = choice.fields();
    let message = choice.get("message"@)->0;
    lemma_field_distinct(choice, "message"@);
    lemma_reply_message(message, provider);
    lemma_distinct_without(fields, "finish_reason"@);
    lemma_distinct_without(without(fields, "finish_reason"@), "message"@);
    let residue = without(without(fields, "finish_reason"@), "message"@);
    let view = ingested_choice(choice);
    let kept = merged(Protocol::OpenAiCompat, view.ext, provider);
    assert forall|key: Seq<char>| #[trigger] find(kept, key) == find(residue, key) by {
        law_a_kept_bag_is_read_back(Protocol::OpenAiCompat, residue, provider, key);
    }
    assert(find(kept, "index"@) == find(fields, "index"@));
    let out = rendered_choice(view, position, provider).fields();
    let goal = filled_choice(choice).fields();
    assert forall|key: Seq<char>| #[trigger] meaning_at(out, key) == meaning_at(goal, key) by {
        assert(find(kept, key) == find(residue, key));
    }
    lemma_same_object(out, goal);
}

/// Counts that were taken out of the details of a usage are put back.
proof fn lemma_details(
    fields: FieldsView,
    details: Seq<char>,
    key1: Seq<char>,
    key2: Seq<char>,
    n1: Option<u64>,
    n2: Option<u64>,
    other: Seq<char>,
)
    requires
        find(fields, details) matches Some(held) ==> held is Object || held is Null,
        n1 == detail_count(JsonView::Object(fields), details, key1),
        n2 == (if key1 == key2 {
            None
        } else {
            detail_count(JsonView::Object(fields), details, key2)
        }),
    ensures
        meaning_at(
            with_details(sans_details(fields, details, key1, key2), details, key1, n1, key2, n2),
            other,
        ) == meaning_at(fields, other),
{
    broadcast use group_find;

    match find(fields, details) {
        Some(JsonView::Object(inner)) => {
            let less = sans_count(sans_count(inner, key1), key2);
            let again = with_count(with_count(less, key1, n1), key2, n2);
            assert forall|key: Seq<char>| #[trigger]
                meaning_at(again, key) == meaning_at(inner, key) by {
                assert(find(again, key) == find(inner, key));
            }
            lemma_same_object(again, inner);
        },
        _ => {},
    }
}

proof fn lemma_distinct_details(
    fields: FieldsView,
    details: Seq<char>,
    key1: Seq<char>,
    key2: Seq<char>,
)
    requires
        distinct(fields),
    ensures
        distinct(sans_details(fields, details, key1, key2)),
{
    match find(fields, details) {
        Some(JsonView::Object(inner)) => {
            lemma_distinct_put(
                fields,
                details,
                JsonView::Object(sans_count(sans_count(inner, key1), key2)),
            );
        },
        _ => {},
    }
}

/// What is found beside the details is not changed by them.
proof fn lemma_beside_details(
    a: FieldsView,
    b: FieldsView,
    details: Seq<char>,
    key1: Seq<char>,
    n1: Option<u64>,
    key2: Seq<char>,
    n2: Option<u64>,
    other: Seq<char>,
)
    requires
        forall|key: Seq<char>| #[trigger] find(a, key) == find(b, key),
    ensures
        find(with_details(a, details, key1, n1, key2, n2), other) == find(
            with_details(b, details, key1, n1, key2, n2),
            other,
        ),
{
    broadcast use group_find;

    assert(find(a, details) == find(b, details));
    assert(find(a, other) == find(b, other));
}

/// Token counts are rendered as the same JSON.
proof fn lemma_usage(usage: JsonView, provider: Seq<char>)
    requires
        usage_shape(usage),
        keys_distinct(usage),
    ensures
        same_json(rendered_usage(ingested_usage(usage), provider), usage),
{
    broadcast use group_find;

    lemma_usage_keys();
    lemma_detail_keys();
    let fields = usage.fields();
    let f1 = without(fields, "completion_tokens"@);
    lemma_distinct_without(fields, "completion_tokens"@);
    let f2 = without(f1, "prompt_tokens"@);
    lemma_distinct_without(f1, "prompt_tokens"@);
    let f3 = without(f2, "total_tokens"@);
    lemma_distinct_without(f2, "total_tokens"@);
    let p = "prompt_tokens_details"@;
    let c = "completion_tokens_details"@;
    let read = "cached_tokens"@;
    let written = "cache_write_tokens"@;
    let thought = "reasoning_tokens"@;
    let f4 = sans_details(f3, p, read, written);
    lemma_distinct_details(f3, p, read, written);
    let f5 = sans_details(f4, c, thought, thought);
    lemma_distinct_details(f4, c, thought, thought);
    let view = ingested_usage(usage);
    let kept = merged(Protocol::OpenAiCompat, view.ext, provider);
    assert forall|key: Seq<char>| #[trigger] find(kept, key) == find(f5, key) by {
        law_a_kept_bag_is_read_back(Protocol::OpenAiCompat, f5, provider, key);
    }
    let n1 = view.cache_read_tokens;
    let n2 = view.cache_write_tokens;
    let n3 = view.reasoning_tokens;
    assert(find(f3, p) == find(fields, p));
    assert(find(f3, c) == find(fields, c));
    assert(find(f4, c) == find(f3, c));
    let g1 = with_details(kept, p, read, n1, written, n2);
    let g2 = with_details(g1, c, thought, n3, thought, None);
    assert forall|key: Seq<char>| #[trigger] meaning_at(g2, key) == meaning_at(f3, key) by {
        lemma_beside_details(kept, f5, p, read, n1, written, n2, key);
        lemma_beside_details(kept, f5, p, read, n1, written, n2, c);
        lemma_beside_details(kept, f5, p, read, n1, written, n2, p);
        if key == c {
            lemma_details(f4, c, thought, thought, n3, None, c);
            assert(find(f5, c) == find(sans_details(f4, c, thought, thought), c));
            assert(find(g1, c) == find(f5, c));
            assert(find(g2, c) == find(with_details(f5, c, thought, n3, thought, None), c));
        } else if key == p {
            lemma_details(f3, p, read, written, n1, n2, p);
            assert(find(f5, p) == find(f4, p));
            assert(find(with_details(f5, p, read, n1, written, n2), p) == find(
                with_details(f4, p, read, n1, written, n2),
                p,
            ));
            assert(find(g2, p) == find(g1, p));
        } else {
            assert(find(g2, key) == find(kept, key));
            assert(find(f5, key) == find(f3, key));
        }
    }
    let out = rendered_usage(view, provider).fields();
    assert forall|key: Seq<char>| #[trigger] meaning_at(out, key) == meaning_at(fields, key) by {
        assert(meaning_at(g2, key) == meaning_at(f3, key));
    }
    lemma_same_object(out, fields);
}

/// What a reply keeps, it keeps apart.
proof fn lemma_response_residue(response: JsonView, provider: Seq<char>, key: Seq<char>)
    requires
        keys_distinct(response),
        response is Object,
    ensures
        find(
            merged(
                Protocol::OpenAiCompat,
                crate::gateway::ext::kept_under(
                    Protocol::OpenAiCompat,
                    response_residue(response),
                ),
                provider,
            ),
            key,
        ) == find(response_residue(response), key),
{
    let fields = response.fields();
    lemma_distinct_without(fields, "id"@);
    let f1 = without(fields, "id"@);
    lemma_distinct_without(f1, "choices"@);
    let f2 = without(f1, "choices"@);
    lemma_distinct_without(f2, "created"@);
    let f3 = without(f2, "created"@);
    lemma_distinct_without(f3, "model"@);
    let f4 = without(f3, "model"@);
    lemma_distinct_without(f4, "usage"@);
    law_a_kept_bag_is_read_back(
        Protocol::OpenAiCompat,
        response_residue(response),
        provider,
        key,
    );
}

/// The envelope of a reply is rendered as it was, but for its choices.
proof fn lemma_envelope(
    response: JsonView,
    kept: FieldsView,
    provider: Seq<char>,
    object: Seq<char>,
    choices: Seq<JsonView>,
    key: Seq<char>,
)
    requires
        envelope_shape(response),
        keys_distinct(response),
        forall|k: Seq<char>| #[trigger] find(kept, k) == find(response_residue(response), k),
    ensures
        meaning_at(
            with_envelope(
                with_usage(kept, usage_in(response), provider),
                object,
                response.str_at("id"@)->0,
                response.str_at("model"@)->0,
                response.u64_at("created"@),
                choices,
            ),
            key,
        ) == if key == "choices"@ {
            Some(meaning(JsonView::Array(choices)))
        } else {
            meaning_at(sans_null(response.fields(), "system_fingerprint"@), key)
        },
{
    broadcast use group_find;

    lemma_envelope_keys();
    assert(find(kept, key) == find(response_residue(response), key));
    assert(find(kept, "usage"@) == find(response_residue(response), "usage"@));
    assert(find(kept, "object"@) == find(response_residue(response), "object"@));
    match usage_in(response) {
        Some(_) => {
            lemma_field_distinct(response, "usage"@);
            lemma_usage(response.get("usage"@)->0, provider);
        },
        None => {},
    }
    let with = with_usage(kept, usage_in(response), provider);
    assert(find(with, "object"@) == find(response.fields(), "object"@));
    assert(find(with, "moderation"@) == find(response.fields(), "moderation"@)) by {
        assert(find(kept, "moderation"@) == find(response_residue(response), "moderation"@));
    }
    assert(find(with, "service_tier"@) == find(response.fields(), "service_tier"@)) by {
        assert(find(kept, "service_tier"@) == find(response_residue(response), "service_tier"@));
    }
    let mark = "system_fingerprint"@;
    assert(find(with, mark) == find(response.fields(), mark)) by {
        assert(find(kept, mark) == find(response_residue(response), mark));
    }
    let named = settled(
        with,
        "object"@,
        present(with, "object"@, |v: JsonView| v is String),
        Some(string(object)),
    );
    lemma_envelope_typed(named, key);
}

/// A reply that is read and rendered by this protocol, for whatever provider, is
/// the reply there was: nothing is added but the `null` that stands for an
/// absent content or refusal, and nothing is left out but a `null` that means no
/// more than an absent field.
pub proof fn law_a_response_round_trips(response: JsonView, provider: Seq<char>)
    requires
        well_formed_response(response),
    ensures
        same_json(
            rendered_response(ingested_response(response), provider),
            filled_response(response),
        ),
{
    broadcast use group_find;

    let view = ingested_response(response);
    let items = response.items_at("choices"@);
    let rendered = rendered_choices(view.completions, provider);
    let filled = items.map_values(|c: JsonView| filled_choice(c));
    assert forall|i: int| 0 <= i < items.len() implies same_json(
        #[trigger] rendered[i],
        filled[i],
    ) by {
        assert(choices_shape(response.get("choices"@)->0));
        assert(choice_shape(items[i]));
        lemma_item_distinct(response, "choices"@, i);
        assert(view.completions[i] == ingested_choice(items[i]));
        lemma_choice(items[i], i, provider);
    }
    lemma_same_array(rendered, filled);
    let kept = merged(Protocol::OpenAiCompat, view.ext, provider);
    assert forall|key: Seq<char>| #[trigger]
        find(kept, key) == find(response_residue(response), key) by {
        lemma_response_residue(response, provider, key);
    }
    let out = rendered_response(view, provider).fields();
    let goal = filled_response(response).fields();
    assert forall|key: Seq<char>| #[trigger] meaning_at(out, key) == meaning_at(goal, key) by {
        lemma_envelope(response, kept, provider, "chat.completion"@, rendered, key);
    }
    lemma_same_object(out, goal);
}

// ---------------------------------------------------------------------------
// Chunks
// ---------------------------------------------------------------------------

/// The delta without a role or calls that are `null`, which mean no more than
/// absent ones.
pub open spec fn plain_delta(delta: JsonView) -> JsonView {
    JsonView::Object(sans_null(sans_null(delta.fields(), "role"@), "tool_calls"@))
}

/// The choice with its reason to end, which is `null` where the provider left it
/// out, and with its delta plain.
pub open spec fn filled_stream_choice(choice: JsonView) -> JsonView {
    let f = put(choice.fields(), "delta"@, plain_delta(choice.get("delta"@)->0));
    JsonView::Object(
        settled(f, "finish_reason"@, find(f, "finish_reason"@) is Some, Some(JsonView::Null)),
    )
}

/// The chunk with its choices filled. A fingerprint that is `null` means no more
/// than an absent one.
pub open spec fn filled_chunk(chunk: JsonView) -> JsonView {
    JsonView::Object(
        put(
            sans_null(chunk.fields(), "system_fingerprint"@),
            "choices"@,
            JsonView::Array(
                chunk.items_at("choices"@).map_values(|c: JsonView| filled_stream_choice(c)),
            ),
        ),
    )
}

/// A chunk: a document of its shape, in which no object names a field twice.
pub open spec fn well_formed_chunk(chunk: JsonView) -> bool {
    chunk_shape(chunk) && keys_distinct(chunk)
}

/// Every call among the fragments has for its position the number it came with.
pub open spec fn numbers_kept(
    content: Seq<ContentDeltaView>,
    choice: u32,
    seen: Seq<(u32, u32)>,
) -> bool
    decreases content.len(),
{
    content.len() == 0 || {
        let before = content.drop_last();
        let between = rendered_fragments(before, choice, seen).seen;
        &&& numbers_kept(before, choice, seen)
        &&& match content.last() {
            ContentDeltaView::ToolCall { index, .. } => rank(between, choice, index) == index,
            ContentDeltaView::Unknown(value) => call_chunk_shape(value) ==> rank(
                between,
                choice,
                value.u32_at("index"@)->0,
            ) == value.u32_at("index"@)->0,
            _ => true,
        }
    }
}

/// Every call of a chunk has for its position the number it came with.
pub open spec fn all_numbers_kept(
    completions: Seq<CompletionDeltaView>,
    provider: Seq<char>,
    seen: Seq<(u32, u32)>,
) -> bool
    decreases completions.len(),
{
    completions.len() == 0 || {
        let before = completions.drop_last();
        let last = completions.last();
        let fields = merged(Protocol::OpenAiCompat, last.ext, provider);
        &&& all_numbers_kept(before, provider, seen)
        &&& numbers_kept(
            last.delta.content,
            rendered_index(fields, completions.len() - 1),
            rendered_stream_choices(before, provider, seen).1,
        )
    }
}

/// What a piece of a call is rendered as, where it keeps its number.
pub open spec fn chunk_again(call: JsonView) -> JsonView {
    let index = call.u32_at("index"@)->0;
    if plain_chunk(call) {
        call_chunk(
            index as nat,
            call.str_at("id"@),
            call.str_at("type"@),
            call.str_in("function"@, "name"@),
            call.str_in("function"@, "arguments"@),
        )
    } else {
        JsonView::Object(put(call.fields(), "index"@, count(index as u64)))
    }
}

/// A piece of a call that keeps its number is rendered as the same JSON.
proof fn lemma_chunk_again(call: JsonView)
    requires
        call_chunk_shape(call),
    ensures
        same_json(chunk_again(call), call),
{
    broadcast use group_find;

    lemma_call_keys();
    let fields = call.fields();
    let again = chunk_again(call).fields();
    if plain_chunk(call) {
        reveal_strlit("function");
        reveal_strlit("tool_use");
        assert("function"@[0] != "tool_use"@[0]);
        let function = call.get("function"@)->0;
        let made = call_chunk(
            call.u32_at("index"@)->0 as nat,
            call.str_at("id"@),
            call.str_at("type"@),
            call.str_in("function"@, "name"@),
            call.str_in("function"@, "arguments"@),
        ).get("function"@)->0.fields();
        assert forall|key: Seq<char>| #[trigger]
            meaning_at(made, key) == meaning_at(function.fields(), key) by {
            if key != "arguments"@ && key != "name"@ {
                lemma_only_named(function.fields(), "arguments"@, "name"@, "name"@, key);
            }
        }
        lemma_same_object(made, function.fields());
        assert forall|key: Seq<char>| #[trigger]
            meaning_at(again, key) == meaning_at(fields, key) by {
            if key != "id"@ && key != "type"@ && key != "function"@ && key != "index"@ {
                lemma_only_named(without(fields, "index"@), "id"@, "type"@, "function"@, key);
            }
        }
    } else {
        assert forall|key: Seq<char>| #[trigger]
            meaning_at(again, key) == meaning_at(fields, key) by {}
    }
    lemma_same_object(again, fields);
}

proof fn lemma_chunks_again(
    head: Seq<ContentDeltaView>,
    calls: Seq<JsonView>,
    choice: u32,
    seen: Seq<(u32, u32)>,
)
    requires
        all_items(calls, |v: JsonView| call_chunk_shape(v)),
        numbers_kept(
            head + calls.map_values(|call: JsonView| ingested_call_chunk(call)),
            choice,
            seen,
        ),
    ensures
        ({
            let all = head + calls.map_values(|call: JsonView| ingested_call_chunk(call));
            let rendered = rendered_fragments(all, choice, seen);
            let first = rendered_fragments(head, choice, seen);
            &&& rendered.text == first.text
            &&& rendered.calls == first.calls + calls.map_values(
                |call: JsonView| chunk_again(call),
            )
        }),
    decreases calls.len(),
{
    let fragments = calls.map_values(|call: JsonView| ingested_call_chunk(call));
    let again = calls.map_values(|call: JsonView| chunk_again(call));
    let first = rendered_fragments(head, choice, seen);
    if calls.len() == 0 {
        assert(head + fragments =~= head);
        assert(first.calls + again =~= first.calls);
    } else {
        let rest = calls.drop_last();
        let rest_fragments = rest.map_values(|call: JsonView| ingested_call_chunk(call));
        assert forall|i: int| 0 <= i < rest.len() implies call_chunk_shape(#[trigger] rest[i]) by {
            assert(rest[i] == calls[i]);
        }
        let all = head + fragments;
        let last = calls[calls.len() - 1];
        assert(call_chunk_shape(last));
        assert(all.drop_last() =~= head + rest_fragments);
        assert(all.last() == ingested_call_chunk(last));
        lemma_chunks_again(head, rest, choice, seen);
        let rest_again = rest.map_values(|call: JsonView| chunk_again(call));
        assert(first.calls + again =~= (first.calls + rest_again).push(chunk_again(last)));
    }
}

proof fn lemma_head_fragments(delta: JsonView, choice: u32, seen: Seq<(u32, u32)>)
    ensures
        ({
            let first = rendered_fragments(
                reasoning_deltas(delta) + text_deltas(delta),
                choice,
                seen,
            );
            &&& first.text == delta.str_at("content"@)
            &&& first.calls.len() == 0
        }),
{
    let reasoning = reasoning_deltas(delta);
    let text = text_deltas(delta);
    let both = reasoning + text;
    let none = Seq::<ContentDeltaView>::empty();
    let nothing = rendered_fragments(none, choice, seen);
    assert(nothing.text is None && nothing.calls.len() == 0);
    if reasoning.len() > 0 {
        assert(reasoning.drop_last() =~= none);
    } else {
        assert(reasoning =~= none);
    }
    let thought = rendered_fragments(reasoning, choice, seen);
    assert(thought.text is None && thought.calls.len() == 0);
    if text.len() > 0 {
        assert(both.drop_last() =~= reasoning);
    } else {
        assert(both =~= reasoning);
    }
}

/// What becomes of each field of a delta.
#[verifier::rlimit(60)]
#[verifier::spinoff_prover]
proof fn lemma_delta_fields(
    delta: JsonView,
    kept: FieldsView,
    calls: Seq<JsonView>,
    key: Seq<char>,
)
    requires
        delta_shape(delta),
        forall|k: Seq<char>| #[trigger] find(kept, k) == find(delta_residue(delta), k),
        calls.len() == delta.items_at("tool_calls"@).len(),
        same_json(JsonView::Array(calls), JsonView::Array(delta.items_at("tool_calls"@))),
    ensures
        meaning_at(
            delta_fields(kept, ingested_delta(delta).role, delta.str_at("content"@), calls),
            key,
        ) == meaning_at(plain_delta(delta).fields(), key),
{
    broadcast use group_find;

    lemma_message_keys();
    let fields = delta.fields();
    let residue = delta_residue(delta);
    let role = ingested_delta(delta).role;
    match delta.str_at("role"@) {
        Some(word) => {
            law_known_roles_round_trip(role->0, word);
        },
        None => {},
    }
    assert(find(kept, "role"@) == find(residue, "role"@));
    assert(find(kept, "content"@) == find(residue, "content"@));
    assert(find(kept, "refusal"@) == find(residue, "refusal"@));
    assert(find(kept, "function_call"@) == find(residue, "function_call"@));
    assert(find(residue, "function_call"@) == find(fields, "function_call"@));
    assert(find(kept, key) == find(residue, key));
    let items = delta.items_at("tool_calls"@);
    if key == "tool_calls"@ && items.len() > 0 {
        assert(find(fields, key) == Some(JsonView::Array(items)));
    }
}

/// A delta is rendered as the same JSON.
proof fn lemma_delta(delta: JsonView, provider: Seq<char>, choice: u32, seen: Seq<(u32, u32)>)
    requires
        delta_shape(delta),
        keys_distinct(delta),
        numbers_kept(fragments_of(delta), choice, seen),
    ensures
        same_json(
            rendered_delta(ingested_delta(delta), provider, choice, seen).0,
            plain_delta(delta),
        ),
{
    broadcast use group_find;

    lemma_message_keys();
    let fields = delta.fields();
    let items = delta.items_at("tool_calls"@);
    let head = reasoning_deltas(delta) + text_deltas(delta);
    assert(all_items(items, |v: JsonView| call_chunk_shape(v))) by {
        match delta.get("tool_calls"@) {
            Some(JsonView::Array(calls)) => {
                assert(call_chunks_shape(JsonView::Array(calls)));
            },
            _ => {},
        }
    }
    lemma_head_fragments(delta, choice, seen);
    lemma_chunks_again(head, items, choice, seen);
    let view = ingested_delta(delta);
    let again = items.map_values(|call: JsonView| chunk_again(call));
    let rendered = rendered_fragments(view.content, choice, seen);
    assert(rendered.calls =~= again);
    lemma_distinct_without(fields, "role"@);
    let f1 = role_residue(fields);
    lemma_distinct_without(f1, "content"@);
    let f2 = if delta.str_at("content"@) is Some {
        without(f1, "content"@)
    } else {
        f1
    };
    lemma_distinct_sans_null(f2, "tool_calls"@);
    let f3 = sans_null(f2, "tool_calls"@);
    lemma_distinct_without(f3, "tool_calls"@);
    let residue = delta_residue(delta);
    let kept = merged(Protocol::OpenAiCompat, view.ext, provider);
    assert forall|key: Seq<char>| #[trigger] find(kept, key) == find(residue, key) by {
        law_a_kept_bag_is_read_back(Protocol::OpenAiCompat, residue, provider, key);
    }
    assert forall|i: int| 0 <= i < items.len() implies same_json(#[trigger] again[i], items[i]) by {
        assert(again[i] == chunk_again(items[i]));
        assert(call_chunk_shape(items[i]));
        lemma_chunk_again(items[i]);
    }
    lemma_same_array(again, items);
    let out = delta_fields(kept, view.role, rendered.text, rendered.calls);
    let goal = plain_delta(delta).fields();
    assert forall|key: Seq<char>| #[trigger] meaning_at(out, key) == meaning_at(goal, key) by {
        lemma_delta_fields(delta, kept, again, key);
    }
    lemma_same_object(out, goal);
}

/// A choice of a chunk is rendered as the same JSON.
proof fn lemma_stream_choice(
    choice: JsonView,
    position: int,
    provider: Seq<char>,
    seen: Seq<(u32, u32)>,
)
    requires
        stream_choice_shape(choice),
        keys_distinct(choice),
        ({
            let view = ingested_stream_choice(choice);
            let fields = merged(Protocol::OpenAiCompat, view.ext, provider);
            numbers_kept(view.delta.content, rendered_index(fields, position), seen)
        }),
    ensures
        same_json(
            rendered_stream_choice(ingested_stream_choice(choice), position, provider, seen).0,
            filled_stream_choice(choice),
        ),
{
    broadcast use group_find;

    lemma_choice_keys();
    let fields = choice.fields();
    let delta = choice.get("delta"@)->0;
    lemma_field_distinct(choice, "delta"@);
    lemma_distinct_without(fields, "finish_reason"@);
    lemma_distinct_without(without(fields, "finish_reason"@), "delta"@);
    let residue = without(without(fields, "finish_reason"@), "delta"@);
    let view = ingested_stream_choice(choice);
    let kept = merged(Protocol::OpenAiCompat, view.ext, provider);
    assert forall|key: Seq<char>| #[trigger] find(kept, key) == find(residue, key) by {
        law_a_kept_bag_is_read_back(Protocol::OpenAiCompat, residue, provider, key);
    }
    assert(find(kept, "index"@) == find(fields, "index"@));
    let index = rendered_index(kept, position);
    assert(view.delta == ingested_delta(delta));
    lemma_delta(delta, provider, index, seen);
    let out = rendered_stream_choice(view, position, provider, seen).0.fields();
    let goal = filled_stream_choice(choice).fields();
    assert forall|key: Seq<char>| #[trigger] meaning_at(out, key) == meaning_at(goal, key) by {
        assert(find(kept, key) == find(residue, key));
    }
    lemma_same_object(out, goal);
}

proof fn lemma_stream_choices(items: Seq<JsonView>, provider: Seq<char>, seen: Seq<(u32, u32)>)
    requires
        all_items(items, |c: JsonView| stream_choice_shape(c)),
        forall|i: int| 0 <= i < items.len() ==> keys_distinct(#[trigger] items[i]),
        all_numbers_kept(
            items.map_values(|c: JsonView| ingested_stream_choice(c)),
            provider,
            seen,
        ),
    ensures
        ({
            let rendered = rendered_stream_choices(
                items.map_values(|c: JsonView| ingested_stream_choice(c)),
                provider,
                seen,
            ).0;
            &&& rendered.len() == items.len()
            &&& forall|i: int|
                0 <= i < items.len() ==> same_json(
                    #[trigger] rendered[i],
                    filled_stream_choice(items[i]),
                )
        }),
    decreases items.len(),
{
    let views = items.map_values(|c: JsonView| ingested_stream_choice(c));
    if items.len() > 0 {
        let rest = items.drop_last();
        let rest_views = rest.map_values(|c: JsonView| ingested_stream_choice(c));
        assert(views.drop_last() =~= rest_views);
        assert forall|i: int| 0 <= i < rest.len() implies stream_choice_shape(#[trigger] rest[i])
            && keys_distinct(rest[i]) by {
            assert(rest[i] == items[i]);
            assert(stream_choice_shape(items[i]));
        }
        lemma_stream_choices(rest, provider, seen);
        let last = items[items.len() - 1];
        assert(stream_choice_shape(last));
        assert(views.last() == ingested_stream_choice(last));
        let (before, between) = rendered_stream_choices(rest_views, provider, seen);
        lemma_stream_choice(last, items.len() - 1, provider, between);
        let rendered = rendered_stream_choices(views, provider, seen).0;
        assert forall|i: int| 0 <= i < items.len() implies same_json(
            #[trigger] rendered[i],
            filled_stream_choice(items[i]),
        ) by {
            if i < rest.len() {
                assert(rendered[i] == before[i]);
                assert(rest[i] == items[i]);
            }
        }
    }
}

/// A chunk that is read and rendered by this protocol, for whatever provider, is
/// the chunk there was, where its calls keep their numbers: nothing is added but
/// the `null` that stands for an absent reason to end, and nothing is left out but
/// a `null` that means no more than an absent field.
pub proof fn law_a_chunk_round_trips(
    chunk: JsonView,
    provider: Seq<char>,
    seen: Seq<(u32, u32)>,
)
    requires
        well_formed_chunk(chunk),
        all_numbers_kept(ingested_chunk(chunk).completions, provider, seen),
    ensures
        same_json(rendered_chunk(ingested_chunk(chunk), provider, seen).0, filled_chunk(chunk)),
{
    broadcast use group_find;

    let view = ingested_chunk(chunk);
    let items = chunk.items_at("choices"@);
    let rendered = rendered_stream_choices(view.completions, provider, seen).0;
    let filled = items.map_values(|c: JsonView| filled_stream_choice(c));
    assert forall|i: int| 0 <= i < items.len() implies keys_distinct(#[trigger] items[i]) by {
        lemma_item_distinct(chunk, "choices"@, i);
    }
    assert(stream_choices_shape(chunk.get("choices"@)->0));
    lemma_stream_choices(items, provider, seen);
    assert forall|i: int| 0 <= i < items.len() implies same_json(
        #[trigger] rendered[i],
        filled[i],
    ) by {
        assert(filled[i] == filled_stream_choice(items[i]));
    }
    lemma_same_array(rendered, filled);
    let kept = merged(Protocol::OpenAiCompat, view.ext, provider);
    assert forall|key: Seq<char>| #[trigger]
        find(kept, key) == find(response_residue(chunk), key) by {
        lemma_response_residue(chunk, provider, key);
    }
    let out = rendered_chunk(view, provider, seen).0.fields();
    let goal = filled_chunk(chunk).fields();
    assert forall|key: Seq<char>| #[trigger] meaning_at(out, key) == meaning_at(goal, key) by {
        lemma_envelope(chunk, kept, provider, "chat.completion.chunk"@, rendered, key);
    }
    lemma_same_object(out, goal);
}

/// A chunk has a reason to end exactly where the provider gave its word for one,
/// and it is read as the same word on a whole reply is.
pub proof fn law_a_chunk_ends_as_a_reply_does(choice: JsonView)
    ensures
        ({
            let streamed = ingested_stream_choice(choice);
            let whole = ingested_choice(choice);
            &&& streamed.finish_reason is Some <==> streamed.finish_reason_raw is Some
            &&& streamed.finish_reason matches Some(reason) ==> reason == whole.finish_reason
                && streamed.finish_reason_raw == Some(whole.finish_reason_raw)
        }),
{
}

} // verus!
