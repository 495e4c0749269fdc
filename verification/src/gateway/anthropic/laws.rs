//! What holds of requests and replies that are read and rendered by this one
//! protocol.
use vstd::prelude::*;

use crate::error::ErrorView;
use crate::gateway::ext::{law_a_kept_bag_is_read_back, merged};
use crate::gateway::openai_compat::request::{stop_sequences, text_at};
use crate::gateway::openai_compat::response::{sans_count, string_or_null, with_count};
use crate::gateway::openai_compat::wire::{absent_or, all_items, present};
use crate::gateway::types::message::{MessageView, ReasoningDetailView, Role};
use crate::gateway::types::request::{ChatRequestView, ReasoningConfigView};
use crate::gateway::types::response::UsageView;
use crate::json::{
    assigned, count, distinct, fields1, find, group_find, index_of, lemma_distinct_put,
    lemma_distinct_sans_null, lemma_distinct_without, lemma_index_of_bounds, no_fields, opt_string,
    put, sans_null, settled, string, without, FieldsView, JsonView,
};
use crate::json_text::keys_distinct;
use crate::meaning::{lemma_same_array, lemma_same_object, meaning_at, same_json};
use crate::types::{protocol_name, Protocol};

use super::request::{
    any_is_or_holds, content_blocks, flat, ingested_message, ingested_messages, ingested_reasoning,
    ingested_request, ingested_system, is_or_holds, joins_results, late_system, leading,
    message_has, message_residue as turn_residue, refusal, rendered_conversation,
    rendered_output_config, rendered_request, rendered_thinking, rendered_turn, rendered_turns,
    request_has, request_residue, resolved_limit, such_block, turn_fields, turn_len, whole_turn,
    wire_turn, with_form, with_head, with_prompt,
};
use super::response::{
    cached_tokens, first_completion, ingested_block, ingested_response, ingested_result_content,
    ingested_usage, kept_beside, lemma_usage_keys, message_residue, or_zero, own_reasoning,
    rendered_reasoning, rendered_response, rendered_usage, reply_content, reply_fields, reply_role,
    reply_stop, reply_usage, response_residue, sans_thinking, sans_u32, strange_role,
    thinking_count, u32_or_zero, uncached_input, usage_residue, with_thinking,
};
use super::stream::{
    end_chunk, ending_residue, fresh, ingested_event, kept_index, kind_of, part, rendered_ending,
    rendered_event, rendered_message_delta, wire_block_delta, wire_block_start, EventKind,
    StreamStateView,
};
use super::wire::{
    content_shape, details_shape, input_message_shape, input_messages_shape, message_shape,
    request_shape, usage_shape,
};
use super::{law_known_roles_round_trip, role_word};

verus! {

/// The names differ.
proof fn lemma_response_keys()
    ensures
        "id"@ != "role"@,
        "id"@ != "content"@,
        "id"@ != "model"@,
        "id"@ != "stop_reason"@,
        "id"@ != "usage"@,
        "id"@ != "stop_sequence"@,
        "id"@ != "type"@,
        "role"@ != "content"@,
        "role"@ != "model"@,
        "role"@ != "stop_reason"@,
        "role"@ != "usage"@,
        "role"@ != "stop_sequence"@,
        "role"@ != "type"@,
        "content"@ != "model"@,
        "content"@ != "stop_reason"@,
        "content"@ != "usage"@,
        "content"@ != "stop_sequence"@,
        "content"@ != "type"@,
        "model"@ != "stop_reason"@,
        "model"@ != "usage"@,
        "model"@ != "stop_sequence"@,
        "model"@ != "type"@,
        "stop_reason"@ != "usage"@,
        "stop_reason"@ != "stop_sequence"@,
        "stop_reason"@ != "type"@,
        "usage"@ != "stop_sequence"@,
        "usage"@ != "type"@,
        "stop_sequence"@ != "type"@,
{
    reveal_strlit("id");
    reveal_strlit("role");
    reveal_strlit("content");
    reveal_strlit("model");
    reveal_strlit("stop_reason");
    reveal_strlit("usage");
    reveal_strlit("stop_sequence");
    reveal_strlit("type");
    assert("id"@.len() != "role"@.len());
    assert("id"@.len() != "content"@.len());
    assert("id"@.len() != "model"@.len());
    assert("id"@.len() != "stop_reason"@.len());
    assert("id"@.len() != "usage"@.len());
    assert("id"@.len() != "stop_sequence"@.len());
    assert("id"@.len() != "type"@.len());
    assert("role"@.len() != "content"@.len());
    assert("role"@.len() != "model"@.len());
    assert("role"@.len() != "stop_reason"@.len());
    assert("role"@.len() != "usage"@.len());
    assert("role"@.len() != "stop_sequence"@.len());
    assert("role"@[0] != "type"@[0]);
    assert("content"@.len() != "model"@.len());
    assert("content"@.len() != "stop_reason"@.len());
    assert("content"@.len() != "usage"@.len());
    assert("content"@.len() != "stop_sequence"@.len());
    assert("content"@.len() != "type"@.len());
    assert("model"@.len() != "stop_reason"@.len());
    assert("model"@[0] != "usage"@[0]);
    assert("model"@.len() != "stop_sequence"@.len());
    assert("model"@.len() != "type"@.len());
    assert("stop_reason"@.len() != "usage"@.len());
    assert("stop_reason"@.len() != "stop_sequence"@.len());
    assert("stop_reason"@.len() != "type"@.len());
    assert("usage"@.len() != "stop_sequence"@.len());
    assert("usage"@.len() != "type"@.len());
    assert("stop_sequence"@.len() != "type"@.len());
}

/// The names differ.
proof fn lemma_request_keys()
    ensures
        "model"@ != "messages"@,
        "model"@ != "max_tokens"@,
        "model"@ != "temperature"@,
        "model"@ != "top_p"@,
        "model"@ != "stream"@,
        "model"@ != "system"@,
        "model"@ != "stop_sequences"@,
        "model"@ != "tools"@,
        "model"@ != "tool_choice"@,
        "model"@ != "thinking"@,
        "model"@ != "output_config"@,
        "model"@ != "top_k"@,
        "messages"@ != "max_tokens"@,
        "messages"@ != "temperature"@,
        "messages"@ != "top_p"@,
        "messages"@ != "stream"@,
        "messages"@ != "system"@,
        "messages"@ != "stop_sequences"@,
        "messages"@ != "tools"@,
        "messages"@ != "tool_choice"@,
        "messages"@ != "thinking"@,
        "messages"@ != "output_config"@,
        "messages"@ != "top_k"@,
        "max_tokens"@ != "temperature"@,
        "max_tokens"@ != "top_p"@,
        "max_tokens"@ != "stream"@,
        "max_tokens"@ != "system"@,
        "max_tokens"@ != "stop_sequences"@,
        "max_tokens"@ != "tools"@,
        "max_tokens"@ != "tool_choice"@,
        "max_tokens"@ != "thinking"@,
        "max_tokens"@ != "output_config"@,
        "max_tokens"@ != "top_k"@,
        "temperature"@ != "top_p"@,
        "temperature"@ != "stream"@,
        "temperature"@ != "system"@,
        "temperature"@ != "stop_sequences"@,
        "temperature"@ != "tools"@,
        "temperature"@ != "tool_choice"@,
        "temperature"@ != "thinking"@,
        "temperature"@ != "output_config"@,
        "temperature"@ != "top_k"@,
        "top_p"@ != "stream"@,
        "top_p"@ != "system"@,
        "top_p"@ != "stop_sequences"@,
        "top_p"@ != "tools"@,
        "top_p"@ != "tool_choice"@,
        "top_p"@ != "thinking"@,
        "top_p"@ != "output_config"@,
        "top_p"@ != "top_k"@,
        "stream"@ != "system"@,
        "stream"@ != "stop_sequences"@,
        "stream"@ != "tools"@,
        "stream"@ != "tool_choice"@,
        "stream"@ != "thinking"@,
        "stream"@ != "output_config"@,
        "stream"@ != "top_k"@,
        "system"@ != "stop_sequences"@,
        "system"@ != "tools"@,
        "system"@ != "tool_choice"@,
        "system"@ != "thinking"@,
        "system"@ != "output_config"@,
        "system"@ != "top_k"@,
        "stop_sequences"@ != "tools"@,
        "stop_sequences"@ != "tool_choice"@,
        "stop_sequences"@ != "thinking"@,
        "stop_sequences"@ != "output_config"@,
        "stop_sequences"@ != "top_k"@,
        "tools"@ != "tool_choice"@,
        "tools"@ != "thinking"@,
        "tools"@ != "output_config"@,
        "tools"@ != "top_k"@,
        "tool_choice"@ != "thinking"@,
        "tool_choice"@ != "output_config"@,
        "tool_choice"@ != "top_k"@,
        "thinking"@ != "output_config"@,
        "thinking"@ != "top_k"@,
        "output_config"@ != "top_k"@,
{
    reveal_strlit("model");
    reveal_strlit("messages");
    reveal_strlit("max_tokens");
    reveal_strlit("temperature");
    reveal_strlit("top_p");
    reveal_strlit("stream");
    reveal_strlit("system");
    reveal_strlit("stop_sequences");
    reveal_strlit("tools");
    reveal_strlit("tool_choice");
    reveal_strlit("thinking");
    reveal_strlit("output_config");
    reveal_strlit("top_k");
    assert("model"@.len() != "messages"@.len());
    assert("model"@.len() != "max_tokens"@.len());
    assert("model"@.len() != "temperature"@.len());
    assert("model"@[0] != "top_p"@[0]);
    assert("model"@.len() != "stream"@.len());
    assert("model"@.len() != "system"@.len());
    assert("model"@.len() != "stop_sequences"@.len());
    assert("model"@[0] != "tools"@[0]);
    assert("model"@.len() != "tool_choice"@.len());
    assert("model"@.len() != "thinking"@.len());
    assert("model"@.len() != "output_config"@.len());
    assert("model"@[0] != "top_k"@[0]);
    assert("messages"@.len() != "max_tokens"@.len());
    assert("messages"@.len() != "temperature"@.len());
    assert("messages"@.len() != "top_p"@.len());
    assert("messages"@.len() != "stream"@.len());
    assert("messages"@.len() != "system"@.len());
    assert("messages"@.len() != "stop_sequences"@.len());
    assert("messages"@.len() != "tools"@.len());
    assert("messages"@.len() != "tool_choice"@.len());
    assert("messages"@[0] != "thinking"@[0]);
    assert("messages"@.len() != "output_config"@.len());
    assert("messages"@.len() != "top_k"@.len());
    assert("max_tokens"@.len() != "temperature"@.len());
    assert("max_tokens"@.len() != "top_p"@.len());
    assert("max_tokens"@.len() != "stream"@.len());
    assert("max_tokens"@.len() != "system"@.len());
    assert("max_tokens"@.len() != "stop_sequences"@.len());
    assert("max_tokens"@.len() != "tools"@.len());
    assert("max_tokens"@.len() != "tool_choice"@.len());
    assert("max_tokens"@.len() != "thinking"@.len());
    assert("max_tokens"@.len() != "output_config"@.len());
    assert("max_tokens"@.len() != "top_k"@.len());
    assert("temperature"@.len() != "top_p"@.len());
    assert("temperature"@.len() != "stream"@.len());
    assert("temperature"@.len() != "system"@.len());
    assert("temperature"@.len() != "stop_sequences"@.len());
    assert("temperature"@.len() != "tools"@.len());
    assert("temperature"@[1] != "tool_choice"@[1]);
    assert("temperature"@.len() != "thinking"@.len());
    assert("temperature"@.len() != "output_config"@.len());
    assert("temperature"@.len() != "top_k"@.len());
    assert("top_p"@.len() != "stream"@.len());
    assert("top_p"@.len() != "system"@.len());
    assert("top_p"@.len() != "stop_sequences"@.len());
    assert("top_p"@[2] != "tools"@[2]);
    assert("top_p"@.len() != "tool_choice"@.len());
    assert("top_p"@.len() != "thinking"@.len());
    assert("top_p"@.len() != "output_config"@.len());
    assert("top_p"@[4] != "top_k"@[4]);
    assert("stream"@[1] != "system"@[1]);
    assert("stream"@.len() != "stop_sequences"@.len());
    assert("stream"@.len() != "tools"@.len());
    assert("stream"@.len() != "tool_choice"@.len());
    assert("stream"@.len() != "thinking"@.len());
    assert("stream"@.len() != "output_config"@.len());
    assert("stream"@.len() != "top_k"@.len());
    assert("system"@.len() != "stop_sequences"@.len());
    assert("system"@.len() != "tools"@.len());
    assert("system"@.len() != "tool_choice"@.len());
    assert("system"@.len() != "thinking"@.len());
    assert("system"@.len() != "output_config"@.len());
    assert("system"@.len() != "top_k"@.len());
    assert("stop_sequences"@.len() != "tools"@.len());
    assert("stop_sequences"@.len() != "tool_choice"@.len());
    assert("stop_sequences"@.len() != "thinking"@.len());
    assert("stop_sequences"@.len() != "output_config"@.len());
    assert("stop_sequences"@.len() != "top_k"@.len());
    assert("tools"@.len() != "tool_choice"@.len());
    assert("tools"@.len() != "thinking"@.len());
    assert("tools"@.len() != "output_config"@.len());
    assert("tools"@[2] != "top_k"@[2]);
    assert("tool_choice"@.len() != "thinking"@.len());
    assert("tool_choice"@.len() != "output_config"@.len());
    assert("tool_choice"@.len() != "top_k"@.len());
    assert("thinking"@.len() != "output_config"@.len());
    assert("thinking"@.len() != "top_k"@.len());
    assert("output_config"@.len() != "top_k"@.len());
}

/// The names differ.
proof fn lemma_event_keys()
    ensures
        "type"@ != "index"@,
        "type"@ != "content_block"@,
        "type"@ != "delta"@,
        "type"@ != "usage"@,
        "type"@ != "message"@,
        "type"@ != "event"@,
        "type"@ != "stop_reason"@,
        "type"@ != "stop_sequence"@,
        "type"@ != "role"@,
        "type"@ != "content"@,
        "index"@ != "content_block"@,
        "index"@ != "delta"@,
        "index"@ != "usage"@,
        "index"@ != "message"@,
        "index"@ != "event"@,
        "index"@ != "stop_reason"@,
        "index"@ != "stop_sequence"@,
        "index"@ != "role"@,
        "index"@ != "content"@,
        "content_block"@ != "delta"@,
        "content_block"@ != "usage"@,
        "content_block"@ != "message"@,
        "content_block"@ != "event"@,
        "content_block"@ != "stop_reason"@,
        "content_block"@ != "stop_sequence"@,
        "content_block"@ != "role"@,
        "content_block"@ != "content"@,
        "delta"@ != "usage"@,
        "delta"@ != "message"@,
        "delta"@ != "event"@,
        "delta"@ != "stop_reason"@,
        "delta"@ != "stop_sequence"@,
        "delta"@ != "role"@,
        "delta"@ != "content"@,
        "usage"@ != "message"@,
        "usage"@ != "event"@,
        "usage"@ != "stop_reason"@,
        "usage"@ != "stop_sequence"@,
        "usage"@ != "role"@,
        "usage"@ != "content"@,
        "message"@ != "event"@,
        "message"@ != "stop_reason"@,
        "message"@ != "stop_sequence"@,
        "message"@ != "role"@,
        "message"@ != "content"@,
        "event"@ != "stop_reason"@,
        "event"@ != "stop_sequence"@,
        "event"@ != "role"@,
        "event"@ != "content"@,
        "stop_reason"@ != "stop_sequence"@,
        "stop_reason"@ != "role"@,
        "stop_reason"@ != "content"@,
        "stop_sequence"@ != "role"@,
        "stop_sequence"@ != "content"@,
        "role"@ != "content"@,
{
    reveal_strlit("type");
    reveal_strlit("index");
    reveal_strlit("content_block");
    reveal_strlit("delta");
    reveal_strlit("usage");
    reveal_strlit("message");
    reveal_strlit("event");
    reveal_strlit("stop_reason");
    reveal_strlit("stop_sequence");
    reveal_strlit("role");
    reveal_strlit("content");
    assert("type"@.len() != "index"@.len());
    assert("type"@.len() != "content_block"@.len());
    assert("type"@.len() != "delta"@.len());
    assert("type"@.len() != "usage"@.len());
    assert("type"@.len() != "message"@.len());
    assert("type"@.len() != "event"@.len());
    assert("type"@.len() != "stop_reason"@.len());
    assert("type"@.len() != "stop_sequence"@.len());
    assert("type"@[0] != "role"@[0]);
    assert("type"@.len() != "content"@.len());
    assert("index"@.len() != "content_block"@.len());
    assert("index"@[0] != "delta"@[0]);
    assert("index"@[0] != "usage"@[0]);
    assert("index"@.len() != "message"@.len());
    assert("index"@[0] != "event"@[0]);
    assert("index"@.len() != "stop_reason"@.len());
    assert("index"@.len() != "stop_sequence"@.len());
    assert("index"@.len() != "role"@.len());
    assert("index"@.len() != "content"@.len());
    assert("content_block"@.len() != "delta"@.len());
    assert("content_block"@.len() != "usage"@.len());
    assert("content_block"@.len() != "message"@.len());
    assert("content_block"@.len() != "event"@.len());
    assert("content_block"@.len() != "stop_reason"@.len());
    assert("content_block"@[0] != "stop_sequence"@[0]);
    assert("content_block"@.len() != "role"@.len());
    assert("content_block"@.len() != "content"@.len());
    assert("delta"@[0] != "usage"@[0]);
    assert("delta"@.len() != "message"@.len());
    assert("delta"@[0] != "event"@[0]);
    assert("delta"@.len() != "stop_reason"@.len());
    assert("delta"@.len() != "stop_sequence"@.len());
    assert("delta"@.len() != "role"@.len());
    assert("delta"@.len() != "content"@.len());
    assert("usage"@.len() != "message"@.len());
    assert("usage"@[0] != "event"@[0]);
    assert("usage"@.len() != "stop_reason"@.len());
    assert("usage"@.len() != "stop_sequence"@.len());
    assert("usage"@.len() != "role"@.len());
    assert("usage"@.len() != "content"@.len());
    assert("message"@.len() != "event"@.len());
    assert("message"@.len() != "stop_reason"@.len());
    assert("message"@.len() != "stop_sequence"@.len());
    assert("message"@.len() != "role"@.len());
    assert("message"@[0] != "content"@[0]);
    assert("event"@.len() != "stop_reason"@.len());
    assert("event"@.len() != "stop_sequence"@.len());
    assert("event"@.len() != "role"@.len());
    assert("event"@.len() != "content"@.len());
    assert("stop_reason"@.len() != "stop_sequence"@.len());
    assert("stop_reason"@.len() != "role"@.len());
    assert("stop_reason"@.len() != "content"@.len());
    assert("stop_sequence"@.len() != "role"@.len());
    assert("stop_sequence"@.len() != "content"@.len());
    assert("role"@.len() != "content"@.len());
}

proof fn lemma_field_distinct(value: JsonView, key: Seq<char>)
    requires
        keys_distinct(value),
        value.get(key) is Some,
    ensures
        keys_distinct(value.get(key)->0),
{
    lemma_index_of_bounds(value.fields(), key);
    let at = index_of(value.fields(), key) as int;
    assert(keys_distinct(value.fields()[at].1));
}

// ---------------------------------------------------------------------------
// Token counts
// ---------------------------------------------------------------------------

/// The input counts every token of the prompt, cached ones included, and the
/// total is input and output together.
pub proof fn law_the_input_counts_cached_tokens(usage: JsonView)
    requires
        usage_shape(usage),
    ensures
        ({
            let view = ingested_usage(usage);
            &&& view.input_tokens == Some(
                (usage.u32_at("input_tokens"@)->0 + or_zero(view.cache_read_tokens) + or_zero(
                    view.cache_write_tokens,
                )) as u64,
            )
            &&& view.total_tokens->0 == view.input_tokens->0 + view.output_tokens->0
            &&& uncached_input(view) == usage.u32_at("input_tokens"@)->0
        }),
{
}

/// Token counts that another protocol gave are rendered as Anthropic counts them:
/// the input without either count of cached tokens, and zero rather than less.
pub proof fn law_the_input_is_rendered_without_cached_tokens(usage: UsageView, provider: Seq<char>)
    requires
        usage.ext == no_fields(),
        uncached_input(usage) <= u32::MAX,
    ensures
        ({
            let all = or_zero(usage.input_tokens) as int;
            let cached = or_zero(usage.cache_read_tokens) + or_zero(usage.cache_write_tokens);
            rendered_usage(usage, provider).u64_at("input_tokens"@) == Some(
                (if all >= cached {
                    all - cached
                } else {
                    0
                }) as u64,
            )
        }),
{
    broadcast use group_find;

    lemma_usage_keys();
    lemma_no_bag(provider);
}

proof fn lemma_thinking_again(fields: FieldsView, key: Seq<char>)
    requires
        absent_or(
            JsonView::Object(fields),
            "output_tokens_details"@,
            |v: JsonView| details_shape(v),
        ),
    ensures
        meaning_at(with_thinking(sans_thinking(fields), thinking_count(fields)), key)
            == meaning_at(fields, key),
{
    broadcast use group_find;

    match find(fields, "output_tokens_details"@) {
        Some(JsonView::Object(inner)) => {
            let less = sans_count(inner, "thinking_tokens"@);
            let again = with_count(less, "thinking_tokens"@, thinking_count(fields));
            assert forall|k: Seq<char>| #[trigger]
                meaning_at(again, k) == meaning_at(inner, k) by {
                assert(find(again, k) == find(inner, k));
            }
            lemma_same_object(again, inner);
        },
        _ => {},
    }
}

/// Token counts that are read and rendered are the counts there were.
pub proof fn law_token_counts_round_trip(usage: JsonView, provider: Seq<char>)
    requires
        usage_shape(usage),
        keys_distinct(usage),
    ensures
        same_json(rendered_usage(ingested_usage(usage), provider), usage),
{
    broadcast use group_find;

    lemma_usage_keys();
    let fields = usage.fields();
    let f1 = without(fields, "input_tokens"@);
    lemma_distinct_without(fields, "input_tokens"@);
    let f2 = without(f1, "output_tokens"@);
    lemma_distinct_without(f1, "output_tokens"@);
    let f3 = sans_u32(f2, "cache_creation_input_tokens"@);
    lemma_distinct_without(f2, "cache_creation_input_tokens"@);
    let f4 = sans_u32(f3, "cache_read_input_tokens"@);
    lemma_distinct_without(f3, "cache_read_input_tokens"@);
    let f5 = sans_thinking(f4);
    match find(f4, "output_tokens_details"@) {
        Some(JsonView::Object(inner)) => {
            lemma_distinct_put(
                f4,
                "output_tokens_details"@,
                JsonView::Object(sans_count(inner, "thinking_tokens"@)),
            );
        },
        _ => {},
    }
    let input = u32_or_zero(usage, "input_tokens"@);
    lemma_distinct_put(f5, "input_tokens"@, count(input as u64));
    let residue = usage_residue(usage);
    let view = ingested_usage(usage);
    let kept = merged(Protocol::Anthropic, view.ext, provider);
    assert forall|key: Seq<char>| #[trigger] find(kept, key) == find(residue, key) by {
        law_a_kept_bag_is_read_back(Protocol::Anthropic, residue, provider, key);
    }
    assert(find(f4, "output_tokens_details"@) == find(fields, "output_tokens_details"@));
    assert(find(kept, "output_tokens_details"@) == find(f5, "output_tokens_details"@));
    assert(find(kept, "input_tokens"@) == if cached_tokens(usage) > 0 {
        Some(count(input as u64))
    } else {
        None
    });
    let g = with_thinking(kept, view.reasoning_tokens);
    assert forall|key: Seq<char>| key != "input_tokens"@ implies #[trigger] meaning_at(g, key)
        == meaning_at(f4, key) by {
        lemma_thinking_again(f4, key);
        assert(find(kept, key) == find(f5, key));
        assert(find(g, key) == find(with_thinking(f5, view.reasoning_tokens), key));
    }
    let out = rendered_usage(view, provider).fields();
    assert(find(g, "cache_creation_input_tokens"@) == find(f4, "cache_creation_input_tokens"@)) by {
        assert(find(kept, "cache_creation_input_tokens"@) == find(
            f5,
            "cache_creation_input_tokens"@,
        ));
    }
    assert(find(g, "cache_read_input_tokens"@) == find(f4, "cache_read_input_tokens"@)) by {
        assert(find(kept, "cache_read_input_tokens"@) == find(f5, "cache_read_input_tokens"@));
    }
    assert forall|key: Seq<char>| #[trigger] meaning_at(out, key) == meaning_at(fields, key) by {
        if key != "input_tokens"@ {
            assert(meaning_at(g, key) == meaning_at(f4, key));
        }
    }
    lemma_same_object(out, fields);
}

// ---------------------------------------------------------------------------
// Whole replies
// ---------------------------------------------------------------------------

/// The reply with its reason to stop and the sequence it stopped at, which are
/// `null` where they were left out.
pub open spec fn filled_response(response: JsonView) -> JsonView {
    let f = response.fields();
    let f = settled(f, "stop_reason"@, find(f, "stop_reason"@) is Some, Some(JsonView::Null));
    JsonView::Object(
        settled(f, "stop_sequence"@, find(f, "stop_sequence"@) is Some, Some(JsonView::Null)),
    )
}

/// A reply that reading and rendering leave as it was: one of the right shape,
/// whose reason to stop, if it has one, is not empty.
pub open spec fn stable_response(response: JsonView) -> bool {
    &&& message_shape(response)
    &&& keys_distinct(response)
    &&& response.str_at("stop_reason"@) matches Some(word) ==> word.len() > 0
}

proof fn lemma_reply_kept(response: JsonView, provider: Seq<char>, key: Seq<char>)
    requires
        stable_response(response),
    ensures
        find(merged(Protocol::Anthropic, ingested_response(response).ext, provider), key) == find(
            response_residue(response),
            key,
        ),
{
    let fields = response.fields();
    let f1 = without(fields, "id"@);
    lemma_distinct_without(fields, "id"@);
    let f2 = without(f1, "role"@);
    lemma_distinct_without(f1, "role"@);
    let f3 = without(f2, "content"@);
    lemma_distinct_without(f2, "content"@);
    let f4 = without(f3, "model"@);
    lemma_distinct_without(f3, "model"@);
    let f5 = without(f4, "stop_reason"@);
    lemma_distinct_without(f4, "stop_reason"@);
    let f6 = without(f5, "usage"@);
    lemma_distinct_without(f5, "usage"@);
    lemma_distinct_put(f6, "stop_sequence"@, JsonView::Null);
    law_a_kept_bag_is_read_back(
        Protocol::Anthropic,
        response_residue(response),
        provider,
        key,
    );
}

/// The role and the content of a reply are what they were.
proof fn lemma_reply_beside(response: JsonView, provider: Seq<char>)
    requires
        stable_response(response),
    ensures
        ({
            let completion = first_completion(ingested_response(response));
            let beside = kept_beside(completion, provider);
            &&& completion == Some(ingested_response(response).completions[0])
            &&& Some(string(reply_role(completion, beside))) == response.get("role"@)
            &&& Some(reply_content(completion, beside)) == response.get("content"@)
        }),
{
    broadcast use group_find;

    lemma_response_keys();
    let view = ingested_response(response);
    let content = response.get("content"@)->0;
    let m1 = put(no_fields(), "content"@, content);
    assert(distinct(no_fields()));
    lemma_distinct_put(no_fields(), "content"@, content);
    lemma_distinct_without(m1, "role"@);
    match strange_role(response) {
        Some(word) => {
            lemma_distinct_put(m1, "role"@, string(word));
        },
        None => {},
    }
    let residue = message_residue(response);
    let completion = first_completion(view);
    let beside = kept_beside(completion, provider);
    law_a_kept_bag_is_read_back(Protocol::Anthropic, residue, provider, "content"@);
    law_a_kept_bag_is_read_back(Protocol::Anthropic, residue, provider, "role"@);
    assert(find(beside, "content"@) == Some(content));
    assert(find(beside, "role"@) == opt_string(strange_role(response)));
    let word = response.str_at("role"@)->0;
    law_known_roles_round_trip(word);
    assert(reply_role(completion, beside) == word);
    assert(content is Array);
}

/// What each field of a rendered reply is.
proof fn lemma_reply_fields(
    kept: FieldsView,
    id: Seq<char>,
    role: Seq<char>,
    content: JsonView,
    model: Seq<char>,
    stop: JsonView,
    usage: JsonView,
    key: Seq<char>,
)
    requires
        find(kept, "type"@) matches Some(JsonView::String(_)),
    ensures
        find(reply_fields(kept, id, role, content, model, stop, usage), key) == if key
            == "id"@ {
            Some(string(id))
        } else if key == "role"@ {
            Some(string(role))
        } else if key == "content"@ {
            Some(content)
        } else if key == "model"@ {
            Some(string(model))
        } else if key == "stop_reason"@ {
            Some(stop)
        } else if key == "stop_sequence"@ {
            Some(string_or_null(text_at(kept, "stop_sequence"@)))
        } else if key == "usage"@ {
            Some(usage)
        } else {
            find(kept, key)
        },
{
    broadcast use group_find;

    lemma_response_keys();
}

/// What a reply keeps.
proof fn lemma_response_residue(response: JsonView, key: Seq<char>)
    ensures
        find(response_residue(response), key) == if key == "id"@ || key == "role"@ || key
            == "content"@ || key == "model"@ || key == "stop_reason"@ || key == "usage"@ {
            None
        } else if key == "stop_sequence"@ && find(response.fields(), key) is None {
            Some(JsonView::Null)
        } else {
            find(response.fields(), key)
        },
{
    broadcast use group_find;

    lemma_response_keys();
}

/// What each field of a filled reply is.
proof fn lemma_filled(response: JsonView, key: Seq<char>)
    ensures
        find(filled_response(response).fields(), key) == if (key == "stop_reason"@ || key
            == "stop_sequence"@) && find(response.fields(), key) is None {
            Some(JsonView::Null)
        } else {
            find(response.fields(), key)
        },
{
    broadcast use group_find;

    lemma_response_keys();
}

/// A reply that is read and rendered by this protocol, for whatever provider, is
/// the reply there was.
pub proof fn law_a_response_round_trips(response: JsonView, provider: Seq<char>)
    requires
        stable_response(response),
    ensures
        same_json(
            rendered_response(ingested_response(response), provider),
            filled_response(response),
        ),
{
    lemma_response_keys();
    lemma_reply_beside(response, provider);
    lemma_field_distinct(response, "usage"@);
    let usage = response.get("usage"@)->0;
    law_token_counts_round_trip(usage, provider);
    let view = ingested_response(response);
    let kept = merged(Protocol::Anthropic, view.ext, provider);
    let completion = first_completion(view);
    let beside = kept_beside(completion, provider);
    let role = reply_role(completion, beside);
    let content = reply_content(completion, beside);
    let stop = reply_stop(completion);
    let counted = reply_usage(view.usage, provider);
    assert(counted == rendered_usage(ingested_usage(usage), provider));
    assert(stop == match response.get("stop_reason"@) {
        Some(value) => value,
        None => JsonView::Null,
    });
    lemma_reply_kept(response, provider, "type"@);
    lemma_response_residue(response, "type"@);
    lemma_reply_kept(response, provider, "stop_sequence"@);
    lemma_response_residue(response, "stop_sequence"@);
    let out = reply_fields(kept, view.id, role, content, view.model, stop, counted);
    let goal = filled_response(response).fields();
    assert forall|key: Seq<char>| #[trigger] meaning_at(out, key) == meaning_at(goal, key) by {
        lemma_reply_fields(kept, view.id, role, content, view.model, stop, counted, key);
        lemma_reply_kept(response, provider, key);
        lemma_response_residue(response, key);
        lemma_filled(response, key);
    }
    lemma_same_object(out, goal);
}

/// No reasoning but Anthropic's own is rendered.
pub proof fn law_only_own_reasoning_is_rendered(
    detail: ReasoningDetailView,
    provenance: Option<Seq<char>>,
)
    ensures
        provenance != Some(protocol_name(Protocol::Anthropic)) ==> rendered_reasoning(
            detail,
            provenance,
        ) is None,
{
}

/// A block of reasoning that was read here is rendered as the block it was.
pub proof fn law_own_reasoning_reads_back(detail: ReasoningDetailView)
    requires
        !(detail is Summary),
    ensures
        rendered_reasoning(detail, Some(protocol_name(Protocol::Anthropic))) matches Some(block)
            && ingested_block(block) == own_reasoning(detail),
{
    broadcast use group_find;

    reveal_strlit("type");
    reveal_strlit("thinking");
    reveal_strlit("signature");
    reveal_strlit("redacted_thinking");
    reveal_strlit("data");
    reveal_strlit("text");
    reveal_strlit("image");
    reveal_strlit("document");
    reveal_strlit("tool_use");
    reveal_strlit("tool_result");
    assert("type"@.len() == 4 && "data"@.len() == 4 && "type"@[0] != "data"@[0]);
    assert("type"@[1] != "text"@[1]);
    assert("thinking"@.len() == 8 && "tool_use"@.len() == 8 && "document"@.len() == 8);
    assert("thinking"@[1] != "tool_use"@[1]);
    assert("thinking"@[0] != "document"@[0]);
    assert("signature"@.len() == 9 && "redacted_thinking"@.len() == 17);
    assert("image"@.len() == 5 && "tool_result"@.len() == 11 && "text"@.len() == 4);
}

/// A chunk that ends a message ends it as a whole reply with the same reason to
/// stop does, and has a reason exactly where the provider gave its word for one.
pub proof fn law_a_stream_ends_as_a_reply_does(
    event: JsonView,
    state: StreamStateView,
    response: JsonView,
)
    requires
        part(event, "delta"@).str_at("stop_reason"@) == response.str_at("stop_reason"@),
        response.str_at("stop_reason"@) is Some,
    ensures
        ({
            let streamed = end_chunk(event, state).completions[0];
            let whole = ingested_response(response).completions[0];
            &&& streamed.finish_reason == Some(whole.finish_reason)
            &&& streamed.finish_reason_raw == Some(whole.finish_reason_raw)
        }),
{
}

// ---------------------------------------------------------------------------
// Requests
// ---------------------------------------------------------------------------

/// A request: a document of its shape, in which no object names a field twice, and
/// which holds no bytes without a media type.
pub open spec fn well_formed_request(request: JsonView) -> bool {
    &&& request_shape(request)
    &&& keys_distinct(request)
    &&& !request_has(ingested_messages(request), such_block(false))
}

/// A field whose `null` means no more than that it is absent.
pub open spec fn absent_if_null(key: Seq<char>) -> bool {
    ||| key == "system"@
    ||| key == "temperature"@
    ||| key == "top_p"@
    ||| key == "stop_sequences"@
    ||| key == "tools"@
    ||| key == "tool_choice"@
    ||| key == "thinking"@
    ||| key == "output_config"@
}

/// The fields without a `null` that means no more than an absent field.
pub open spec fn sans_nulls(fields: FieldsView) -> FieldsView {
    let f = sans_null(sans_null(sans_null(fields, "system"@), "temperature"@), "top_p"@);
    let f = sans_null(sans_null(f, "stop_sequences"@), "tools"@);
    sans_null(sans_null(sans_null(f, "tool_choice"@), "thinking"@), "output_config"@)
}

/// The request with the model it was routed to; whether to stream is said only
/// where it is asked for, and a `null` that means no more than an absent field is
/// left out.
pub open spec fn routed(request: JsonView, model: Seq<char>) -> JsonView {
    JsonView::Object(
        assigned(
            put(sans_nulls(request.fields()), "model"@, string(model)),
            "stream"@,
            if request.bool_at("stream"@) == Some(true) {
                Some(JsonView::Bool(true))
            } else {
                None
            },
        ),
    )
}

/// A field, unless it is a `null` that means no more than an absent one.
pub open spec fn said_field(fields: FieldsView, key: Seq<char>) -> Option<JsonView> {
    if absent_if_null(key) && find(fields, key) == Some(JsonView::Null) {
        None
    } else {
        find(fields, key)
    }
}

/// What each field of a routed request is.
proof fn lemma_routed(request: JsonView, model: Seq<char>, key: Seq<char>)
    ensures
        find(routed(request, model).fields(), key) == if key == "model"@ {
            Some(string(model))
        } else if key == "stream"@ {
            if request.bool_at("stream"@) == Some(true) {
                Some(JsonView::Bool(true))
            } else {
                None
            }
        } else {
            said_field(request.fields(), key)
        },
{
    broadcast use group_find;

    lemma_request_keys();
}

/// No block that is read here is sound.
proof fn lemma_no_sound(block: JsonView)
    ensures
        !is_or_holds(ingested_block(block), such_block(true)),
    decreases block, 1nat,
{
    if ingested_block(block) is ToolResult {
        lemma_no_sound_within(block);
        let content = ingested_result_content(block);
        assert(!any_is_or_holds(content, such_block(true)));
    }
}

proof fn lemma_no_sound_within(block: JsonView)
    ensures
        !any_is_or_holds(ingested_result_content(block), such_block(true)),
    decreases block, 0nat,
{
    let content = ingested_result_content(block);
    match block {
        JsonView::Object(fields) => {
            let i = index_of(fields, "content"@) as int;
            if 0 <= i < fields.len() {
                match fields[i].1 {
                    JsonView::Array(items) => {
                        assert forall|k: int| 0 <= k < content.len() implies !is_or_holds(
                            #[trigger] content[k],
                            such_block(true),
                        ) by {
                            lemma_no_sound(items[k]);
                            assert(content[k] == ingested_block(items[k]));
                        }
                    },
                    _ => {},
                }
            }
        },
        _ => {},
    }
}

proof fn lemma_no_sound_in(content: JsonView)
    ensures
        !any_is_or_holds(content_blocks(content), such_block(true)),
{
    let blocks = content_blocks(content);
    match content {
        JsonView::Array(items) => {
            assert forall|k: int| 0 <= k < blocks.len() implies !is_or_holds(
                #[trigger] blocks[k],
                such_block(true),
            ) by {
                lemma_no_sound(items[k]);
                assert(blocks[k] == ingested_block(items[k]));
            }
        },
        _ => {},
    }
}

/// Nothing that a request stands for is refused.
proof fn lemma_not_refused(request: JsonView, model: Seq<char>)
    requires
        well_formed_request(request),
    ensures
        refusal(ingested_request(request, model)) is None,
{
    let view = ingested_request(request, model);
    let all = view.messages;
    assert forall|i: int| 0 <= i < all.len() implies !message_has(
        #[trigger] all[i],
        such_block(true),
    ) by {
        let messages = request.items_at("messages"@);
        let views = messages.map_values(|m: JsonView| ingested_message(m));
        let n = all.len() - views.len();
        if i < n {
            lemma_no_sound_in(request.get("system"@)->0);
        } else {
            assert(all[i] == ingested_message(messages[i - n]));
            match messages[i - n].get("content"@) {
                Some(content) => {
                    lemma_no_sound_in(content);
                },
                None => {},
            }
        }
    }
}

/// What a message that was read here keeps for its turn.
proof fn lemma_turn_fields(message: JsonView, provider: Seq<char>, key: Seq<char>)
    requires
        input_message_shape(message),
        distinct(message.fields()),
    ensures
        find(turn_fields(ingested_message(message), provider), key) == find(
            turn_residue(message.fields()),
            key,
        ),
{
    lemma_distinct_without(message.fields(), "role"@);
    law_a_kept_bag_is_read_back(
        Protocol::Anthropic,
        turn_residue(message.fields()),
        provider,
        key,
    );
}

/// A message that was read here is a turn by itself, and the turn it was.
proof fn lemma_turn(message: JsonView, provider: Seq<char>)
    requires
        input_message_shape(message),
        distinct(message.fields()),
    ensures
        whole_turn(ingested_message(message), provider),
        rendered_turn(seq![ingested_message(message)], provider) matches Ok(turn) && same_json(
            turn,
            message,
        ),
{
    broadcast use group_find;

    lemma_event_keys();
    let view = ingested_message(message);
    let fields = message.fields();
    let residue = turn_residue(fields);
    let kept = turn_fields(view, provider);
    assert forall|key: Seq<char>| #[trigger] find(kept, key) == find(residue, key) by {
        lemma_turn_fields(message, provider, key);
    }
    assert(find(kept, "content"@) == find(fields, "content"@));
    assert(find(kept, "role"@) == find(residue, "role"@));
    let word = message.str_at("role"@)->0;
    law_known_roles_round_trip(word);
    let role = match text_at(kept, "role"@) {
        Some(raw) => raw,
        None => role_word(view.role),
    };
    assert(role == word);
    let content = find(fields, "content"@)->0;
    let out = wire_turn(role, content, without(without(kept, "role"@), "content"@)).fields();
    assert forall|key: Seq<char>| #[trigger] meaning_at(out, key) == meaning_at(fields, key) by {
        assert(find(kept, key) == find(residue, key));
    }
    lemma_same_object(out, fields);
}

/// The turns of a conversation that was read here are the messages there were.
proof fn lemma_turns(messages: Seq<JsonView>, provider: Seq<char>)
    requires
        all_items(messages, |m: JsonView| input_message_shape(m)),
        forall|i: int| 0 <= i < messages.len() ==> distinct((#[trigger] messages[i]).fields()),
    ensures
        rendered_turns(messages.map_values(|m: JsonView| ingested_message(m)), provider)
            matches Ok(turns) && turns.len() == messages.len() && (forall|i: int|
            0 <= i < messages.len() ==> same_json(#[trigger] turns[i], messages[i])),
    decreases messages.len(),
{
    let views = messages.map_values(|m: JsonView| ingested_message(m));
    if messages.len() > 0 {
        let first = messages[0];
        assert(input_message_shape(first));
        assert(distinct(messages[0].fields()));
        lemma_turn(first, provider);
        assert(views[0] == ingested_message(first));
        assert(!joins_results(views[0], provider));
        assert(turn_len(views, provider) == 1);
        assert(views.take(1) =~= seq![ingested_message(first)]);
        let rest = messages.drop_first();
        assert forall|i: int| 0 <= i < rest.len() implies input_message_shape(#[trigger] rest[i])
            && distinct(rest[i].fields()) by {
            assert(rest[i] == messages[i + 1]);
            assert(input_message_shape(messages[i + 1]));
        }
        lemma_turns(rest, provider);
        let rest_views = rest.map_values(|m: JsonView| ingested_message(m));
        assert(views.skip(1) =~= rest_views);
        let turns = rendered_turns(views, provider)->Ok_0;
        let later = rendered_turns(rest_views, provider)->Ok_0;
        let turn = rendered_turn(views.take(1), provider)->Ok_0;
        assert(turns == seq![turn] + later);
        assert forall|i: int| 0 <= i < messages.len() implies same_json(
            #[trigger] turns[i],
            messages[i],
        ) by {
            if i > 0 {
                assert(turns[i] == later[i - 1]);
                assert(rest[i - 1] == messages[i]);
            }
        }
    }
}

/// No message that is read here is the system's.
proof fn lemma_no_system(messages: Seq<JsonView>, i: int)
    requires
        0 <= i < messages.len(),
    ensures
        messages.map_values(|m: JsonView| ingested_message(m))[i].role != Role::System,
{
    let view = messages.map_values(|m: JsonView| ingested_message(m))[i];
    assert(view == ingested_message(messages[i]));
}

proof fn lemma_leading_none(views: Seq<MessageView>)
    requires
        forall|i: int| 0 <= i < views.len() ==> (#[trigger] views[i]).role != Role::System,
    ensures
        leading(views) == 0,
{
    if views.len() > 0 {
        assert(views[0].role != Role::System);
    }
}

/// The conversation that was read here renders: the system prompt apart, and the
/// messages there were.
proof fn lemma_conversation(request: JsonView, provider: Seq<char>)
    requires
        well_formed_request(request),
    ensures
        ({
            let prompted = said_field(request.fields(), "system"@) is Some;
            rendered_conversation(ingested_messages(request), provider, prompted) matches Ok(
                (system, turns),
            ) && same_json(
                JsonView::Array(turns),
                JsonView::Array(request.items_at("messages"@)),
            ) && system is None
        }),
{
    let messages = request.items_at("messages"@);
    let views = messages.map_values(|m: JsonView| ingested_message(m));
    let all = ingested_messages(request);
    assert(input_messages_shape(request.get("messages"@)->0));
    assert forall|i: int| 0 <= i < messages.len() implies distinct(
        (#[trigger] messages[i]).fields(),
    ) by {
        lemma_field_distinct(request, "messages"@);
        assert(keys_distinct(messages[i]));
    }
    lemma_turns(messages, provider);
    let turns = rendered_turns(views, provider)->Ok_0;
    lemma_same_array(turns, messages);
    assert forall|i: int| 0 <= i < views.len() implies (#[trigger] views[i]).role
        != Role::System by {
        lemma_no_system(messages, i);
    }
    lemma_leading_none(views);
    if said_field(request.fields(), "system"@) is Some {
        let system = ingested_system(request.get("system"@)->0);
        assert(all == seq![system] + views);
        assert(all.drop_first() =~= views);
        assert(all[0] == system);
        assert(leading(all) == 1);
        assert(all.skip(1) =~= views);
        assert(!late_system(all)) by {
            assert forall|i: int| 1 <= i < all.len() implies (#[trigger] all[i]).role
                != Role::System by {
                assert(all[i] == views[i - 1]);
            }
        }
    } else {
        assert(all == views);
        assert(all.skip(0) =~= views);
        assert(all.take(0) =~= Seq::<MessageView>::empty());
        assert(flat(all.take(0)).len() == 0);
        assert(!late_system(all));
    }
}

/// What is kept of the fields of a request.
pub open spec fn kept_field(fields: FieldsView, key: Seq<char>) -> Option<JsonView> {
    if key == "model"@ || key == "messages"@ || key == "max_tokens"@ || key == "temperature"@
        || key == "top_p"@ || key == "stream"@ {
        None
    } else {
        said_field(fields, key)
    }
}

proof fn lemma_request_kept(request: JsonView, model: Seq<char>, provider: Seq<char>, key: Seq<char>)
    requires
        distinct(request.fields()),
    ensures
        find(merged(Protocol::Anthropic, ingested_request(request, model).ext, provider), key)
            == kept_field(request.fields(), key),
{
    broadcast use group_find;

    lemma_request_keys();
    let f = request.fields();
    lemma_distinct_without(f, "model"@);
    let f = without(f, "model"@);
    lemma_distinct_without(f, "messages"@);
    let f = without(f, "messages"@);
    lemma_distinct_without(f, "max_tokens"@);
    let f = without(f, "max_tokens"@);
    lemma_distinct_without(f, "temperature"@);
    let f = without(f, "temperature"@);
    lemma_distinct_without(f, "top_p"@);
    let f = without(f, "top_p"@);
    lemma_distinct_without(f, "stream"@);
    let f = without(f, "stream"@);
    lemma_distinct_sans_null(f, "system"@);
    let f = sans_null(f, "system"@);
    lemma_distinct_sans_null(f, "stop_sequences"@);
    let f = sans_null(f, "stop_sequences"@);
    lemma_distinct_sans_null(f, "tools"@);
    let f = sans_null(f, "tools"@);
    lemma_distinct_sans_null(f, "tool_choice"@);
    let f = sans_null(f, "tool_choice"@);
    lemma_distinct_sans_null(f, "thinking"@);
    let f = sans_null(f, "thinking"@);
    lemma_distinct_sans_null(f, "output_config"@);
    law_a_kept_bag_is_read_back(
        Protocol::Anthropic,
        request_residue(request.fields()),
        provider,
        key,
    );
}

/// The prompt is rendered as it was.
proof fn lemma_prompt(request: JsonView, model: Seq<char>, kept: FieldsView, key: Seq<char>)
    requires
        well_formed_request(request),
        forall|k: Seq<char>| #[trigger] find(kept, k) == kept_field(request.fields(), k),
    ensures
        find(with_prompt(ingested_request(request, model), None, kept), key) == if key
            == "model"@ || key == "messages"@ || key == "max_tokens"@ || key == "stream"@ {
            None
        } else {
            said_field(request.fields(), key)
        },
{
    broadcast use group_find;

    lemma_request_keys();
    let fields = request.fields();
    assert(find(kept, "tools"@) == said_field(fields, "tools"@));
    assert(find(kept, "system"@) == said_field(fields, "system"@));
    assert(find(kept, "top_k"@) == find(fields, "top_k"@));
    assert(find(kept, "stop_sequences"@) == said_field(fields, "stop_sequences"@));
    assert(find(kept, key) == kept_field(fields, key));
}

/// The form is rendered as it was.
proof fn lemma_form(request: JsonView, model: Seq<char>, f: FieldsView, key: Seq<char>)
    requires
        well_formed_request(request),
        find(f, "tool_choice"@) == said_field(request.fields(), "tool_choice"@),
        find(f, "thinking"@) == said_field(request.fields(), "thinking"@),
        find(f, "output_config"@) == said_field(request.fields(), "output_config"@),
    ensures
        find(
            with_form(
                ingested_request(request, model),
                said_field(request.fields(), "output_config"@),
                f,
            ),
            key,
        ) == find(f, key),
{
    broadcast use group_find;

    lemma_request_keys();
    let view = ingested_request(request, model);
    if said_field(request.fields(), "thinking"@) is None {
        match view.reasoning {
            Some(reasoning) => {
                assert(reasoning.enabled is None);
                assert(reasoning.budget_tokens is None);
            },
            None => {},
        }
    }
}

/// What each field is once the model, the limit, the turns and whether to stream
/// are set.
proof fn lemma_head(
    request: ChatRequestView,
    limit: u32,
    turns: Seq<JsonView>,
    fields: FieldsView,
    key: Seq<char>,
)
    ensures
        find(with_head(request, limit, turns, fields), key) == if key == "model"@ {
            Some(string(request.model))
        } else if key == "max_tokens"@ {
            Some(count(limit as u64))
        } else if key == "messages"@ {
            Some(JsonView::Array(turns))
        } else if key == "stream"@ {
            if request.stream {
                Some(JsonView::Bool(true))
            } else {
                None
            }
        } else {
            find(fields, key)
        },
{
    broadcast use group_find;

    lemma_request_keys();
}

/// A request that is read and rendered by this protocol, for whatever provider,
/// is the request there was, but for the model it was routed to, a `stream` that
/// is not asked for, and a `null` that means no more than an absent field.
pub proof fn law_a_request_round_trips(
    request: JsonView,
    model: Seq<char>,
    provider: Seq<char>,
    ceiling: Option<u32>,
)
    requires
        well_formed_request(request),
    ensures
        rendered_request(ingested_request(request, model), provider, ceiling) matches Ok(rendered)
            && same_json(rendered, routed(request, model)),
{
    lemma_request_keys();
    let view = ingested_request(request, model);
    let fields = request.fields();
    let kept = merged(Protocol::Anthropic, view.ext, provider);
    lemma_not_refused(request, model);
    lemma_conversation(request, provider);
    assert forall|k: Seq<char>| #[trigger] find(kept, k) == kept_field(fields, k) by {
        lemma_request_kept(request, model, provider, k);
    }
    assert(find(kept, "system"@) == said_field(fields, "system"@));
    let prompted = said_field(fields, "system"@) is Some;
    assert(prompted == present(kept, "system"@, |v: JsonView| content_shape(v)));
    let turns = rendered_conversation(view.messages, provider, prompted)->Ok_0.1;
    assert(find(kept, "tools"@) == said_field(fields, "tools"@));
    assert(find(kept, "output_config"@) == said_field(fields, "output_config"@));
    if said_field(fields, "tools"@) is None {
        assert(view.tools.len() == 0);
    }
    if said_field(fields, "output_config"@) is None {
        assert(view.response_format is None);
        assert(view.reasoning matches Some(reasoning) ==> reasoning.effort is None);
    }
    let config = said_field(fields, "output_config"@);
    assert(rendered_output_config(view, kept) == Ok::<Option<JsonView>, ErrorView>(config));
    let f1 = with_prompt(view, None, kept);
    lemma_prompt(request, model, kept, "tool_choice"@);
    lemma_prompt(request, model, kept, "thinking"@);
    lemma_prompt(request, model, kept, "output_config"@);
    let f2 = with_form(view, config, f1);
    let limit = request.u32_at("max_tokens"@)->0;
    let out = with_head(view, limit, turns, f2);
    let goal = routed(request, model).fields();
    assert forall|key: Seq<char>| #[trigger] meaning_at(out, key) == meaning_at(goal, key) by {
        lemma_prompt(request, model, kept, key);
        lemma_form(request, model, f1, key);
        lemma_routed(request, model, key);
        lemma_head(view, limit, turns, f2, key);
        if key == "messages"@ {
            assert(input_messages_shape(request.get("messages"@)->0));
        }
    }
    lemma_same_object(out, goal);
}

/// A request is never refused by the protocol it was read from.
pub proof fn law_a_request_read_here_is_never_refused(
    request: JsonView,
    model: Seq<char>,
    provider: Seq<char>,
    ceiling: Option<u32>,
)
    requires
        well_formed_request(request),
    ensures
        rendered_request(ingested_request(request, model), provider, ceiling) is Ok,
{
    law_a_request_round_trips(request, model, provider, ceiling);
}

/// Sound, or bytes without a media type, is refused at whatever depth of tool
/// results it stands.
pub proof fn law_what_has_no_form_is_refused_at_any_depth(
    request: ChatRequestView,
    provider: Seq<char>,
    ceiling: Option<u32>,
    sound: bool,
    i: int,
)
    requires
        0 <= i < request.messages.len(),
        message_has(request.messages[i], such_block(sound)),
    ensures
        rendered_request(request, provider, ceiling) matches Err(ErrorView::NotImplemented(_)),
{
    assert(request_has(request.messages, such_block(sound)));
}

/// The names differ.
proof fn lemma_thinking_keys()
    ensures
        "type"@ != "budget_tokens"@,
        "type"@ != "display"@,
        "budget_tokens"@ != "display"@,
{
    reveal_strlit("type");
    reveal_strlit("budget_tokens");
    reveal_strlit("display");
    assert("type"@.len() != "budget_tokens"@.len());
    assert("type"@.len() != "display"@.len());
    assert("budget_tokens"@.len() != "display"@.len());
}

/// The words differ.
proof fn lemma_thinking_words()
    ensures
        "enabled"@ != "adaptive"@,
        "enabled"@ != "disabled"@,
        "adaptive"@ != "disabled"@,
{
    reveal_strlit("enabled");
    reveal_strlit("adaptive");
    reveal_strlit("disabled");
    assert("enabled"@.len() != "adaptive"@.len());
    assert("enabled"@.len() != "disabled"@.len());
    assert("adaptive"@[0] != "disabled"@[0]);
}

/// Reasoning that is on comes back from the mode of thinking it is rendered as.
/// Reasoning that is off is rendered as thinking that is, whatever its budget.
pub proof fn law_reasoning_reads_back(reasoning: ReasoningConfigView, request: JsonView)
    requires
        request.get("thinking"@) == rendered_thinking(reasoning),
        request.str_in("output_config"@, "effort"@) == reasoning.effort,
    ensures
        reasoning.enabled == Some(true) ==> ingested_reasoning(request) == Some(reasoning),
        reasoning.enabled == Some(false) ==> rendered_thinking(reasoning) == Some(
            JsonView::Object(fields1("type"@, string("disabled"@))),
        ),
{
    broadcast use group_find;

    lemma_thinking_keys();
    lemma_thinking_words();
    reveal_strlit("omitted");
    reveal_strlit("summarized");
    assert("omitted"@.len() != "summarized"@.len());
}

/// The limit of a rendered request is the caller's where there is one and the
/// roster's where there is not; without either there is no request.
pub proof fn law_the_limit_is_the_callers_or_the_rosters(
    request: ChatRequestView,
    provider: Seq<char>,
    ceiling: Option<u32>,
)
    ensures
        match rendered_request(request, provider, ceiling) {
            Ok(rendered) => {
                &&& rendered.u32_at("max_tokens"@) == resolved_limit(request, ceiling)
                &&& resolved_limit(request, ceiling) is Some
                &&& request.params.max_tokens is Some ==> rendered.u32_at("max_tokens"@)
                    == request.params.max_tokens
            },
            Err(_) => true,
        },
{
    broadcast use group_find;

    lemma_request_keys();
}

// ---------------------------------------------------------------------------
// Streams
// ---------------------------------------------------------------------------

/// An event that carries content and names no field in a way that another kind
/// of event does.
pub open spec fn stable_event(event: JsonView) -> bool {
    &&& keys_distinct(event)
    &&& match kind_of(event) {
        EventKind::MessageStart => event.get("event"@) is None,
        EventKind::BlockStart => true,
        EventKind::BlockDelta => event.get("content_block"@) is None,
        EventKind::MessageDelta => event.get("event"@) is None && event.get("message"@) is None,
        _ => false,
    }
}

proof fn lemma_event_kept(event: JsonView, provider: Seq<char>, key: Seq<char>)
    requires
        keys_distinct(event),
        event is Object,
    ensures
        find(
            merged(
                Protocol::Anthropic,
                crate::gateway::ext::kept_under(
                    Protocol::Anthropic,
                    without(event.fields(), "type"@),
                ),
                provider,
            ),
            key,
        ) == find(without(event.fields(), "type"@), key),
{
    lemma_distinct_without(event.fields(), "type"@);
    law_a_kept_bag_is_read_back(
        Protocol::Anthropic,
        without(event.fields(), "type"@),
        provider,
        key,
    );
}

proof fn lemma_no_bag(provider: Seq<char>)
    ensures
        forall|key: Seq<char>| #[trigger]
            find(merged(Protocol::Anthropic, no_fields(), provider), key) is None,
{
    broadcast use group_find;

    assert forall|key: Seq<char>| #[trigger]
        find(merged(Protocol::Anthropic, no_fields(), provider), key) is None by {
        law_a_kept_bag_is_read_back(Protocol::Anthropic, no_fields(), provider, key);
    }
}

proof fn lemma_block_event(event: JsonView, state: StreamStateView, provider: Seq<char>)
    requires
        stable_event(event),
        kind_of(event) == EventKind::BlockStart || kind_of(event) == EventKind::BlockDelta,
    ensures
        rendered_event(ingested_event(event, state).0->0, provider) matches Some(rendered)
            && same_json(rendered, event),
{
    broadcast use group_find;

    lemma_event_keys();
    lemma_no_bag(provider);
    let fields = event.fields();
    let less = without(fields, "type"@);
    let chunk = ingested_event(event, state).0->0;
    let completion = chunk.completions[0];
    let kept = merged(Protocol::Anthropic, completion.delta.ext, provider);
    assert forall|key: Seq<char>| #[trigger] find(kept, key) == find(less, key) by {
        lemma_event_kept(event, provider, key);
    }
    let beside = merged(Protocol::Anthropic, chunk.ext, provider);
    assert(find(beside, "event"@) is None);
    assert(find(beside, "message"@) is None);
    assert(find(beside, "usage"@) is None);
    let index = event.u32_at("index"@)->0;
    assert(find(kept, "index"@) == find(fields, "index"@));
    assert(kept_index(kept) == Some(index));
    let rest = without(kept, "index"@);
    assert(find(kept, "content_block"@) == find(fields, "content_block"@));
    assert(find(kept, "delta"@) == find(fields, "delta"@));
    let rendered = rendered_event(chunk, provider)->0;
    assert(rendered == if kind_of(event) == EventKind::BlockStart {
        wire_block_start(index, find(fields, "content_block"@)->0, rest)
    } else {
        wire_block_delta(index, find(fields, "delta"@)->0, rest)
    });
    let out = rendered.fields();
    assert forall|key: Seq<char>| #[trigger] meaning_at(out, key) == meaning_at(fields, key) by {
        assert(find(kept, key) == find(less, key));
    }
    lemma_same_object(out, fields);
}

proof fn lemma_end_event(event: JsonView, state: StreamStateView, provider: Seq<char>)
    requires
        stable_event(event),
        kind_of(event) == EventKind::MessageDelta,
    ensures
        rendered_event(ingested_event(event, state).0->0, provider) matches Some(rendered)
            && same_json(rendered, event),
{
    broadcast use group_find;

    lemma_event_keys();
    let fields = event.fields();
    let delta = event.get("delta"@)->0;
    let less = without(without(fields, "type"@), "delta"@);
    lemma_distinct_without(fields, "type"@);
    lemma_distinct_without(without(fields, "type"@), "delta"@);
    let chunk = ingested_event(event, state).0->0;
    let completion = chunk.completions[0];
    let kept = merged(Protocol::Anthropic, chunk.ext, provider);
    assert forall|key: Seq<char>| #[trigger] find(kept, key) == find(less, key) by {
        law_a_kept_bag_is_read_back(Protocol::Anthropic, less, provider, key);
    }
    assert(find(kept, "event"@) is None);
    assert(find(kept, "message"@) is None);
    assert(find(kept, "usage"@) == find(fields, "usage"@));
    lemma_field_distinct(event, "delta"@);
    lemma_distinct_without(delta.fields(), "stop_reason"@);
    let residue = ending_residue(delta);
    let beside = merged(Protocol::Anthropic, completion.ext, provider);
    assert forall|key: Seq<char>| #[trigger] find(beside, key) == find(residue, key) by {
        law_a_kept_bag_is_read_back(Protocol::Anthropic, residue, provider, key);
    }
    assert(find(beside, "stop_reason"@) == find(residue, "stop_reason"@));
    assert(find(beside, "stop_sequence"@) == find(residue, "stop_sequence"@));
    let ending = rendered_ending(completion, provider);
    assert forall|key: Seq<char>| #[trigger]
        meaning_at(ending, key) == meaning_at(delta.fields(), key) by {
        assert(find(beside, key) == find(residue, key));
    }
    lemma_same_object(ending, delta.fields());
    let bare = without(kept, "message"@);
    let rendered = rendered_message_delta(chunk, completion, bare, provider);
    assert(find(bare, "usage"@) == find(fields, "usage"@));
    let out = rendered.fields();
    assert forall|key: Seq<char>| #[trigger] meaning_at(out, key) == meaning_at(fields, key) by {
        assert(find(kept, key) == find(less, key));
    }
    lemma_same_object(out, fields);
}

/// An event that carries content, read and rendered by this protocol, is the
/// event it was, whatever went before it in the stream.
pub proof fn law_an_event_round_trips(
    event: JsonView,
    state: StreamStateView,
    provider: Seq<char>,
)
    requires
        stable_event(event),
    ensures
        ingested_event(event, state).0 matches Some(chunk) && rendered_event(chunk, provider)
            matches Some(rendered) && same_json(rendered, event),
{
    broadcast use group_find;

    lemma_event_keys();
    match kind_of(event) {
        EventKind::BlockStart => lemma_block_event(event, state, provider),
        EventKind::BlockDelta => lemma_block_event(event, state, provider),
        EventKind::MessageDelta => lemma_end_event(event, state, provider),
        _ => {
            let fields = event.fields();
            let less = without(fields, "type"@);
            let chunk = ingested_event(event, state).0->0;
            let kept = merged(Protocol::Anthropic, chunk.ext, provider);
            assert forall|key: Seq<char>| #[trigger] find(kept, key) == find(less, key) by {
                lemma_event_kept(event, provider, key);
            }
            assert(find(kept, "event"@) is None);
            assert(find(kept, "message"@) == find(fields, "message"@));
            let out = put(kept, "type"@, string("message_start"@));
            assert forall|key: Seq<char>| #[trigger]
                meaning_at(out, key) == meaning_at(fields, key) by {
                assert(find(kept, key) == find(less, key));
            }
            lemma_same_object(out, fields);
        },
    }
}

/// An event of no known kind is kept whole and rendered as it is.
pub proof fn law_an_unknown_event_passes_through(
    event: JsonView,
    state: StreamStateView,
    provider: Seq<char>,
)
    requires
        kind_of(event) == EventKind::Unknown,
    ensures
        ingested_event(event, state).0 matches Some(chunk) && rendered_event(chunk, provider)
            == Some(event),
{
    broadcast use group_find;

    law_a_kept_bag_is_read_back(
        Protocol::Anthropic,
        fields1("event"@, event),
        provider,
        "event"@,
    );
}

/// Token counts are held for the end of a stream only where they were asked for.
pub open spec fn holds_totals_only_if_asked(state: StreamStateView) -> bool {
    state.totals is Some ==> state.report_usage
}

/// A stream starts, and goes on, holding token counts only where they were asked
/// for. Only its end reports them, only where they were asked for and came, and
/// once it has, none are left to report.
pub proof fn law_totals_come_once_and_only_if_asked(
    event: JsonView,
    state: StreamStateView,
    report_usage: bool,
)
    requires
        holds_totals_only_if_asked(state),
    ensures
        holds_totals_only_if_asked(fresh(report_usage)),
        ({
            let (chunk, after) = ingested_event(event, state);
            &&& holds_totals_only_if_asked(after)
            &&& after.report_usage == state.report_usage
            &&& (chunk matches Some(chunk) && chunk.usage is Some) ==> {
                &&& kind_of(event) == EventKind::MessageStop
                &&& state.report_usage
                &&& after.totals is None
            }
            &&& kind_of(event) == EventKind::MessageStop && state.totals is Some ==> (chunk
                matches Some(chunk) && chunk.usage == state.totals)
        }),
{
}

/// Every chunk of a stream after its message has started bears that message's id
/// and model.
pub proof fn law_every_chunk_bears_the_messages_name(event: JsonView, state: StreamStateView)
    ensures
        ({
            let (chunk, after) = ingested_event(event, state);
            chunk matches Some(chunk) ==> chunk.id == after.id && chunk.model == after.model
        }),
        kind_of(event) != EventKind::MessageStart ==> ingested_event(event, state).1.id == state.id
            && ingested_event(event, state).1.model == state.model,
{
}

} // verus!
