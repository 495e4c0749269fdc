//! What holds of a request that is read and rendered by this one protocol.
use vstd::prelude::*;

use crate::gateway::ext::{law_a_kept_bag_is_read_back, merged};
use crate::gateway::types::message::{ContentBlockView, MediaSourceView};
use crate::gateway::types::request::{ChatRequestView, GenerationParamsView};
use crate::json::{
    assigned, distinct, fields1, fields2, find, group_find, lemma_distinct_sans_null,
    lemma_distinct_without, lemma_index_of_bounds, opt_string, put, sans_null, settled, string,
    without, FieldsView, JsonView,
};
use crate::json_text::keys_distinct;
use crate::meaning::{lemma_same_array, lemma_same_object, meaning_at, same_json};
use crate::text::{halves, lemma_halves, position, starts, stripped};
use crate::types::Protocol;

use super::law_known_roles_round_trip;
use super::request::{
    any_cache_hinted, any_failed_result, cache_hinted, calls_of, content_blocks, content_of,
    failed_result, file_fields, ingested_call, ingested_message, ingested_part, ingested_request,
    ingested_tool, kept_stop, limit_of, media_source_of, message_blocks, message_residue, refusal,
    rendered_calls, rendered_content, rendered_message, rendered_messages, rendered_part,
    rendered_request, rendered_role, request_fields, request_residue, result_at, results_of,
    role_residue, tools_field, url_of, whole_call, with_form, with_head, with_params,
};
use super::response::only_named;
use super::wire::{
    absent_or, all_items, call_shape, calls_shape, message_shape, messages_shape, nullable_number,
    nullable_string, nullable_u32, present, request_shape, response_format_shape, stop_shape,
    stream_options_shape, tools_shape,
};

verus! {

/// The names differ.
proof fn lemma_message_keys()
    ensures
        "role"@ != "content"@,
        "role"@ != "tool_calls"@,
        "role"@ != "tool_call_id"@,
        "content"@ != "tool_calls"@,
        "content"@ != "tool_call_id"@,
        "tool_calls"@ != "tool_call_id"@,
{
    reveal_strlit("role");
    reveal_strlit("content");
    reveal_strlit("tool_calls");
    reveal_strlit("tool_call_id");
    assert("role"@.len() != "content"@.len());
    assert("role"@.len() != "tool_calls"@.len());
    assert("role"@.len() != "tool_call_id"@.len());
    assert("content"@.len() != "tool_calls"@.len());
    assert("content"@.len() != "tool_call_id"@.len());
    assert("tool_calls"@.len() != "tool_call_id"@.len());
}

/// The names differ.
proof fn lemma_param_keys()
    ensures
        "temperature"@ != "max_tokens"@,
        "temperature"@ != "top_p"@,
        "temperature"@ != "top_k"@,
        "temperature"@ != "stop"@,
        "temperature"@ != "max_completion_tokens"@,
        "max_tokens"@ != "top_p"@,
        "max_tokens"@ != "top_k"@,
        "max_tokens"@ != "stop"@,
        "max_tokens"@ != "max_completion_tokens"@,
        "top_p"@ != "top_k"@,
        "top_p"@ != "stop"@,
        "top_p"@ != "max_completion_tokens"@,
        "top_k"@ != "stop"@,
        "top_k"@ != "max_completion_tokens"@,
        "stop"@ != "max_completion_tokens"@,
{
    reveal_strlit("temperature");
    reveal_strlit("max_tokens");
    reveal_strlit("top_p");
    reveal_strlit("top_k");
    reveal_strlit("stop");
    reveal_strlit("max_completion_tokens");
    assert("temperature"@.len() != "max_tokens"@.len());
    assert("temperature"@.len() != "top_p"@.len());
    assert("temperature"@.len() != "top_k"@.len());
    assert("temperature"@.len() != "stop"@.len());
    assert("temperature"@.len() != "max_completion_tokens"@.len());
    assert("max_tokens"@.len() != "top_p"@.len());
    assert("max_tokens"@.len() != "top_k"@.len());
    assert("max_tokens"@.len() != "stop"@.len());
    assert("max_tokens"@.len() != "max_completion_tokens"@.len());
    assert("top_p"@[4] != "top_k"@[4]);
    assert("top_p"@.len() != "stop"@.len());
    assert("top_p"@.len() != "max_completion_tokens"@.len());
    assert("top_k"@.len() != "stop"@.len());
    assert("top_k"@.len() != "max_completion_tokens"@.len());
    assert("stop"@.len() != "max_completion_tokens"@.len());
}

/// The names differ.
proof fn lemma_form_keys()
    ensures
        "stream_options"@ != "tool_choice"@,
        "stream_options"@ != "parallel_tool_calls"@,
        "stream_options"@ != "response_format"@,
        "stream_options"@ != "reasoning_effort"@,
        "tool_choice"@ != "parallel_tool_calls"@,
        "tool_choice"@ != "response_format"@,
        "tool_choice"@ != "reasoning_effort"@,
        "parallel_tool_calls"@ != "response_format"@,
        "parallel_tool_calls"@ != "reasoning_effort"@,
        "response_format"@ != "reasoning_effort"@,
{
    reveal_strlit("stream_options");
    reveal_strlit("tool_choice");
    reveal_strlit("parallel_tool_calls");
    reveal_strlit("response_format");
    reveal_strlit("reasoning_effort");
    assert("stream_options"@.len() != "tool_choice"@.len());
    assert("stream_options"@.len() != "parallel_tool_calls"@.len());
    assert("stream_options"@.len() != "response_format"@.len());
    assert("stream_options"@.len() != "reasoning_effort"@.len());
    assert("tool_choice"@.len() != "parallel_tool_calls"@.len());
    assert("tool_choice"@.len() != "response_format"@.len());
    assert("tool_choice"@.len() != "reasoning_effort"@.len());
    assert("parallel_tool_calls"@.len() != "response_format"@.len());
    assert("parallel_tool_calls"@.len() != "reasoning_effort"@.len());
    assert("response_format"@.len() != "reasoning_effort"@.len());
}

/// The names differ.
proof fn lemma_head_keys()
    ensures
        "model"@ != "messages"@,
        "model"@ != "stream"@,
        "messages"@ != "stream"@,
{
    reveal_strlit("model");
    reveal_strlit("messages");
    reveal_strlit("stream");
    assert("model"@.len() != "messages"@.len());
    assert("model"@.len() != "stream"@.len());
    assert("messages"@.len() != "stream"@.len());
}

/// The names of the fields of a request differ.
proof fn lemma_request_keys()
    ensures
        "model"@ != "messages"@,
        "model"@ != "stream"@,
        "model"@ != "stream_options"@,
        "model"@ != "tool_choice"@,
        "model"@ != "parallel_tool_calls"@,
        "model"@ != "response_format"@,
        "model"@ != "reasoning_effort"@,
        "model"@ != "tools"@,
        "model"@ != "temperature"@,
        "model"@ != "max_tokens"@,
        "model"@ != "top_p"@,
        "model"@ != "top_k"@,
        "model"@ != "stop"@,
        "model"@ != "max_completion_tokens"@,
        "messages"@ != "stream"@,
        "messages"@ != "stream_options"@,
        "messages"@ != "tool_choice"@,
        "messages"@ != "parallel_tool_calls"@,
        "messages"@ != "response_format"@,
        "messages"@ != "reasoning_effort"@,
        "messages"@ != "tools"@,
        "messages"@ != "temperature"@,
        "messages"@ != "max_tokens"@,
        "messages"@ != "top_p"@,
        "messages"@ != "top_k"@,
        "messages"@ != "stop"@,
        "messages"@ != "max_completion_tokens"@,
        "stream"@ != "stream_options"@,
        "stream"@ != "tool_choice"@,
        "stream"@ != "parallel_tool_calls"@,
        "stream"@ != "response_format"@,
        "stream"@ != "reasoning_effort"@,
        "stream"@ != "tools"@,
        "stream"@ != "temperature"@,
        "stream"@ != "max_tokens"@,
        "stream"@ != "top_p"@,
        "stream"@ != "top_k"@,
        "stream"@ != "stop"@,
        "stream"@ != "max_completion_tokens"@,
        "stream_options"@ != "tool_choice"@,
        "stream_options"@ != "parallel_tool_calls"@,
        "stream_options"@ != "response_format"@,
        "stream_options"@ != "reasoning_effort"@,
        "stream_options"@ != "tools"@,
        "stream_options"@ != "temperature"@,
        "stream_options"@ != "max_tokens"@,
        "stream_options"@ != "top_p"@,
        "stream_options"@ != "top_k"@,
        "stream_options"@ != "stop"@,
        "stream_options"@ != "max_completion_tokens"@,
        "tool_choice"@ != "parallel_tool_calls"@,
        "tool_choice"@ != "response_format"@,
        "tool_choice"@ != "reasoning_effort"@,
        "tool_choice"@ != "tools"@,
        "tool_choice"@ != "temperature"@,
        "tool_choice"@ != "max_tokens"@,
        "tool_choice"@ != "top_p"@,
        "tool_choice"@ != "top_k"@,
        "tool_choice"@ != "stop"@,
        "tool_choice"@ != "max_completion_tokens"@,
        "parallel_tool_calls"@ != "response_format"@,
        "parallel_tool_calls"@ != "reasoning_effort"@,
        "parallel_tool_calls"@ != "tools"@,
        "parallel_tool_calls"@ != "temperature"@,
        "parallel_tool_calls"@ != "max_tokens"@,
        "parallel_tool_calls"@ != "top_p"@,
        "parallel_tool_calls"@ != "top_k"@,
        "parallel_tool_calls"@ != "stop"@,
        "parallel_tool_calls"@ != "max_completion_tokens"@,
        "response_format"@ != "reasoning_effort"@,
        "response_format"@ != "tools"@,
        "response_format"@ != "temperature"@,
        "response_format"@ != "max_tokens"@,
        "response_format"@ != "top_p"@,
        "response_format"@ != "top_k"@,
        "response_format"@ != "stop"@,
        "response_format"@ != "max_completion_tokens"@,
        "reasoning_effort"@ != "tools"@,
        "reasoning_effort"@ != "temperature"@,
        "reasoning_effort"@ != "max_tokens"@,
        "reasoning_effort"@ != "top_p"@,
        "reasoning_effort"@ != "top_k"@,
        "reasoning_effort"@ != "stop"@,
        "reasoning_effort"@ != "max_completion_tokens"@,
        "tools"@ != "temperature"@,
        "tools"@ != "max_tokens"@,
        "tools"@ != "top_p"@,
        "tools"@ != "top_k"@,
        "tools"@ != "stop"@,
        "tools"@ != "max_completion_tokens"@,
        "temperature"@ != "max_tokens"@,
        "temperature"@ != "top_p"@,
        "temperature"@ != "top_k"@,
        "temperature"@ != "stop"@,
        "temperature"@ != "max_completion_tokens"@,
        "max_tokens"@ != "top_p"@,
        "max_tokens"@ != "top_k"@,
        "max_tokens"@ != "stop"@,
        "max_tokens"@ != "max_completion_tokens"@,
        "top_p"@ != "top_k"@,
        "top_p"@ != "stop"@,
        "top_p"@ != "max_completion_tokens"@,
        "top_k"@ != "stop"@,
        "top_k"@ != "max_completion_tokens"@,
        "stop"@ != "max_completion_tokens"@,
{
    reveal_strlit("model");
    reveal_strlit("messages");
    reveal_strlit("stream");
    reveal_strlit("stream_options");
    reveal_strlit("tool_choice");
    reveal_strlit("parallel_tool_calls");
    reveal_strlit("response_format");
    reveal_strlit("reasoning_effort");
    reveal_strlit("tools");
    reveal_strlit("temperature");
    reveal_strlit("max_tokens");
    reveal_strlit("top_p");
    reveal_strlit("top_k");
    reveal_strlit("stop");
    reveal_strlit("max_completion_tokens");
    assert("model"@.len() != "messages"@.len());
    assert("model"@.len() != "stream"@.len());
    assert("model"@.len() != "stream_options"@.len());
    assert("model"@.len() != "tool_choice"@.len());
    assert("model"@.len() != "parallel_tool_calls"@.len());
    assert("model"@.len() != "response_format"@.len());
    assert("model"@.len() != "reasoning_effort"@.len());
    assert("model"@[0] != "tools"@[0]);
    assert("model"@.len() != "temperature"@.len());
    assert("model"@.len() != "max_tokens"@.len());
    assert("model"@[0] != "top_p"@[0]);
    assert("model"@[0] != "top_k"@[0]);
    assert("model"@.len() != "stop"@.len());
    assert("model"@.len() != "max_completion_tokens"@.len());
    assert("messages"@.len() != "stream"@.len());
    assert("messages"@.len() != "stream_options"@.len());
    assert("messages"@.len() != "tool_choice"@.len());
    assert("messages"@.len() != "parallel_tool_calls"@.len());
    assert("messages"@.len() != "response_format"@.len());
    assert("messages"@.len() != "reasoning_effort"@.len());
    assert("messages"@.len() != "tools"@.len());
    assert("messages"@.len() != "temperature"@.len());
    assert("messages"@.len() != "max_tokens"@.len());
    assert("messages"@.len() != "top_p"@.len());
    assert("messages"@.len() != "top_k"@.len());
    assert("messages"@.len() != "stop"@.len());
    assert("messages"@.len() != "max_completion_tokens"@.len());
    assert("stream"@.len() != "stream_options"@.len());
    assert("stream"@.len() != "tool_choice"@.len());
    assert("stream"@.len() != "parallel_tool_calls"@.len());
    assert("stream"@.len() != "response_format"@.len());
    assert("stream"@.len() != "reasoning_effort"@.len());
    assert("stream"@.len() != "tools"@.len());
    assert("stream"@.len() != "temperature"@.len());
    assert("stream"@.len() != "max_tokens"@.len());
    assert("stream"@.len() != "top_p"@.len());
    assert("stream"@.len() != "top_k"@.len());
    assert("stream"@.len() != "stop"@.len());
    assert("stream"@.len() != "max_completion_tokens"@.len());
    assert("stream_options"@.len() != "tool_choice"@.len());
    assert("stream_options"@.len() != "parallel_tool_calls"@.len());
    assert("stream_options"@.len() != "response_format"@.len());
    assert("stream_options"@.len() != "reasoning_effort"@.len());
    assert("stream_options"@.len() != "tools"@.len());
    assert("stream_options"@.len() != "temperature"@.len());
    assert("stream_options"@.len() != "max_tokens"@.len());
    assert("stream_options"@.len() != "top_p"@.len());
    assert("stream_options"@.len() != "top_k"@.len());
    assert("stream_options"@.len() != "stop"@.len());
    assert("stream_options"@.len() != "max_completion_tokens"@.len());
    assert("tool_choice"@.len() != "parallel_tool_calls"@.len());
    assert("tool_choice"@.len() != "response_format"@.len());
    assert("tool_choice"@.len() != "reasoning_effort"@.len());
    assert("tool_choice"@.len() != "tools"@.len());
    assert("tool_choice"@[1] != "temperature"@[1]);
    assert("tool_choice"@.len() != "max_tokens"@.len());
    assert("tool_choice"@.len() != "top_p"@.len());
    assert("tool_choice"@.len() != "top_k"@.len());
    assert("tool_choice"@.len() != "stop"@.len());
    assert("tool_choice"@.len() != "max_completion_tokens"@.len());
    assert("parallel_tool_calls"@.len() != "response_format"@.len());
    assert("parallel_tool_calls"@.len() != "reasoning_effort"@.len());
    assert("parallel_tool_calls"@.len() != "tools"@.len());
    assert("parallel_tool_calls"@.len() != "temperature"@.len());
    assert("parallel_tool_calls"@.len() != "max_tokens"@.len());
    assert("parallel_tool_calls"@.len() != "top_p"@.len());
    assert("parallel_tool_calls"@.len() != "top_k"@.len());
    assert("parallel_tool_calls"@.len() != "stop"@.len());
    assert("parallel_tool_calls"@.len() != "max_completion_tokens"@.len());
    assert("response_format"@.len() != "reasoning_effort"@.len());
    assert("response_format"@.len() != "tools"@.len());
    assert("response_format"@.len() != "temperature"@.len());
    assert("response_format"@.len() != "max_tokens"@.len());
    assert("response_format"@.len() != "top_p"@.len());
    assert("response_format"@.len() != "top_k"@.len());
    assert("response_format"@.len() != "stop"@.len());
    assert("response_format"@.len() != "max_completion_tokens"@.len());
    assert("reasoning_effort"@.len() != "tools"@.len());
    assert("reasoning_effort"@.len() != "temperature"@.len());
    assert("reasoning_effort"@.len() != "max_tokens"@.len());
    assert("reasoning_effort"@.len() != "top_p"@.len());
    assert("reasoning_effort"@.len() != "top_k"@.len());
    assert("reasoning_effort"@.len() != "stop"@.len());
    assert("reasoning_effort"@.len() != "max_completion_tokens"@.len());
    assert("tools"@.len() != "temperature"@.len());
    assert("tools"@.len() != "max_tokens"@.len());
    assert("tools"@[2] != "top_p"@[2]);
    assert("tools"@[2] != "top_k"@[2]);
    assert("tools"@.len() != "stop"@.len());
    assert("tools"@.len() != "max_completion_tokens"@.len());
    assert("temperature"@.len() != "max_tokens"@.len());
    assert("temperature"@.len() != "top_p"@.len());
    assert("temperature"@.len() != "top_k"@.len());
    assert("temperature"@.len() != "stop"@.len());
    assert("temperature"@.len() != "max_completion_tokens"@.len());
    assert("max_tokens"@.len() != "top_p"@.len());
    assert("max_tokens"@.len() != "top_k"@.len());
    assert("max_tokens"@.len() != "stop"@.len());
    assert("max_tokens"@.len() != "max_completion_tokens"@.len());
    assert("top_p"@[4] != "top_k"@[4]);
    assert("top_p"@.len() != "stop"@.len());
    assert("top_p"@.len() != "max_completion_tokens"@.len());
    assert("top_k"@.len() != "stop"@.len());
    assert("top_k"@.len() != "max_completion_tokens"@.len());
    assert("stop"@.len() != "max_completion_tokens"@.len());
}

/// The URL of an image is what it was before it was taken apart.
pub proof fn law_a_media_url_is_put_together_again(url: Seq<char>)
    ensures
        url_of(media_source_of(url)) == url,
{
    match stripped(url, "data:"@) {
        Some(rest) => {
            lemma_halves(rest, ";base64,"@);
            assert("data:"@ + rest =~= url) by {
                assert(url.take("data:"@.len() as int) == "data:"@);
            }
            match halves(rest, ";base64,"@) {
                Some((media_type, data)) => {
                    assert("data:"@ + media_type + ";base64,"@ + data =~= "data:"@ + (media_type
                        + ";base64,"@ + data));
                },
                None => {},
            }
        },
        None => {},
    }
}

/// `pattern` stands in `text` from position `i` on.
pub open spec fn stands_at(text: Seq<char>, pattern: Seq<char>, i: int) -> bool {
    0 <= i <= text.len() && starts(text.skip(i), pattern)
}

/// An address holds bytes exactly where it begins with `data:` and `;base64,`
/// stands somewhere after that. It is split where that first stands; any other
/// address is one.
pub proof fn law_a_data_url_holds_bytes(url: Seq<char>)
    ensures
        ({
            let rest = url.skip("data:"@.len() as int);
            let inline = starts(url, "data:"@) && exists|i: int|
                #[trigger] stands_at(rest, ";base64,"@, i);
            match media_source_of(url) {
                MediaSourceView::Base64 { media_type, data } => {
                    &&& inline
                    &&& url == "data:"@ + media_type + ";base64,"@ + data
                    &&& stands_at(rest, ";base64,"@, media_type.len() as int)
                    &&& forall|i: int|
                        0 <= i < media_type.len() ==> !#[trigger] stands_at(rest, ";base64,"@, i)
                },
                MediaSourceView::Url { url: same } => !inline && same == url,
                MediaSourceView::ProviderFile { .. } => false,
            }
        }),
{
    let rest = url.skip("data:"@.len() as int);
    law_a_media_url_is_put_together_again(url);
    lemma_first(rest, ";base64,"@);
    lemma_halves(rest, ";base64,"@);
    if starts(url, "data:"@) {
        match halves(rest, ";base64,"@) {
            Some((media_type, _)) => {
                let n = position(rest, ";base64,"@)->0;
                assert(media_type.len() == n);
            },
            None => {},
        }
    }
}

/// A pattern is found where it first stands, and nowhere where it stands nowhere.
proof fn lemma_first(text: Seq<char>, pattern: Seq<char>)
    ensures
        match position(text, pattern) {
            Some(n) => stands_at(text, pattern, n as int) && n <= text.len() && forall|i: int|
                0 <= i < n ==> !#[trigger] stands_at(text, pattern, i),
            None => forall|i: int| !#[trigger] stands_at(text, pattern, i),
        },
    decreases text.len(),
{
    assert(text.skip(0) =~= text);
    if !starts(text, pattern) {
        if text.len() == 0 {
            assert forall|i: int| !#[trigger] stands_at(text, pattern, i) by {
                if 0 <= i <= text.len() {
                    assert(i == 0);
                }
            }
        } else {
            let rest = text.drop_first();
            lemma_first(rest, pattern);
            assert forall|i: int| 1 <= i implies #[trigger] stands_at(text, pattern, i)
                == stands_at(rest, pattern, i - 1) by {
                if i <= text.len() {
                    assert(text.skip(i) =~= rest.skip(i - 1));
                }
            }
            match position(rest, pattern) {
                Some(m) => {
                    assert(stands_at(text, pattern, m as int + 1));
                    assert forall|i: int| 0 <= i < m + 1 implies !#[trigger] stands_at(
                        text,
                        pattern,
                        i,
                    ) by {
                        if i > 0 {
                            assert(!stands_at(rest, pattern, i - 1));
                        }
                    }
                },
                None => {
                    assert forall|i: int| !#[trigger] stands_at(text, pattern, i) by {
                        if i > 0 {
                            assert(!stands_at(rest, pattern, i - 1));
                        }
                    }
                },
            }
        }
    }
}

/// The names differ.
proof fn lemma_part_keys()
    ensures
        "type"@ != "text"@,
        "type"@ != "image_url"@,
        "type"@ != "input_audio"@,
        "type"@ != "file"@,
        "text"@ != "image_url"@,
        "text"@ != "input_audio"@,
        "text"@ != "file"@,
        "image_url"@ != "input_audio"@,
        "image_url"@ != "file"@,
        "input_audio"@ != "file"@,
{
    reveal_strlit("type");
    reveal_strlit("text");
    reveal_strlit("image_url");
    reveal_strlit("input_audio");
    reveal_strlit("file");
    assert("type"@[1] != "text"@[1]);
    assert("type"@.len() != "image_url"@.len());
    assert("type"@.len() != "input_audio"@.len());
    assert("type"@[0] != "file"@[0]);
    assert("text"@.len() != "image_url"@.len());
    assert("text"@.len() != "input_audio"@.len());
    assert("text"@[0] != "file"@[0]);
    assert("image_url"@.len() != "input_audio"@.len());
    assert("image_url"@.len() != "file"@.len());
    assert("input_audio"@.len() != "file"@.len());
}

/// The names differ.
proof fn lemma_inner_keys()
    ensures
        "url"@ != "detail"@,
        "url"@ != "data"@,
        "url"@ != "format"@,
        "url"@ != "file_id"@,
        "url"@ != "file_data"@,
        "url"@ != "filename"@,
        "detail"@ != "data"@,
        "detail"@ != "format"@,
        "detail"@ != "file_id"@,
        "detail"@ != "file_data"@,
        "detail"@ != "filename"@,
        "data"@ != "format"@,
        "data"@ != "file_id"@,
        "data"@ != "file_data"@,
        "data"@ != "filename"@,
        "format"@ != "file_id"@,
        "format"@ != "file_data"@,
        "format"@ != "filename"@,
        "file_id"@ != "file_data"@,
        "file_id"@ != "filename"@,
        "file_data"@ != "filename"@,
{
    reveal_strlit("url");
    reveal_strlit("detail");
    reveal_strlit("data");
    reveal_strlit("format");
    reveal_strlit("file_id");
    reveal_strlit("file_data");
    reveal_strlit("filename");
    assert("url"@.len() != "detail"@.len());
    assert("url"@.len() != "data"@.len());
    assert("url"@.len() != "format"@.len());
    assert("url"@.len() != "file_id"@.len());
    assert("url"@.len() != "file_data"@.len());
    assert("url"@.len() != "filename"@.len());
    assert("detail"@.len() != "data"@.len());
    assert("detail"@[0] != "format"@[0]);
    assert("detail"@.len() != "file_id"@.len());
    assert("detail"@.len() != "file_data"@.len());
    assert("detail"@.len() != "filename"@.len());
    assert("data"@.len() != "format"@.len());
    assert("data"@.len() != "file_id"@.len());
    assert("data"@.len() != "file_data"@.len());
    assert("data"@.len() != "filename"@.len());
    assert("format"@.len() != "file_id"@.len());
    assert("format"@.len() != "file_data"@.len());
    assert("format"@.len() != "filename"@.len());
    assert("file_id"@.len() != "file_data"@.len());
    assert("file_id"@.len() != "filename"@.len());
    assert("file_data"@.len() != "filename"@.len());
}

/// A field is absent or a text.
pub open spec fn text_if_any(value: JsonView, key: Seq<char>) -> bool {
    absent_or(value, key, |v: JsonView| v is String)
}

/// The value is an object of no more than these fields.
pub open spec fn made_of(value: JsonView, a: Seq<char>, b: Seq<char>, c: Seq<char>) -> bool {
    value is Object && only_named(value.fields(), a, b, c)
}

/// A part that holds no more than its kind has: a part of a known kind carries no
/// other field, no `null`, and at most one of the two ways to name a file.
pub open spec fn pure_part(part: JsonView) -> bool {
    let tag = part.str_at("type"@);
    if tag == Some("text"@) && part.str_at("text"@) is Some {
        made_of(part, "type"@, "text"@, "text"@)
    } else if tag == Some("image_url"@) && part.str_in("image_url"@, "url"@) is Some {
        let image = part.get("image_url"@)->0;
        &&& made_of(part, "type"@, "image_url"@, "image_url"@)
        &&& made_of(image, "url"@, "detail"@, "detail"@)
        &&& text_if_any(image, "detail"@)
    } else if tag == Some("input_audio"@) && part.str_in("input_audio"@, "data"@) is Some
        && part.str_in("input_audio"@, "format"@) is Some {
        &&& made_of(part, "type"@, "input_audio"@, "input_audio"@)
        &&& made_of(part.get("input_audio"@)->0, "data"@, "format"@, "format"@)
    } else if tag == Some("file"@) && (part.str_in("file"@, "file_id"@) is Some || part.str_in(
        "file"@,
        "file_data"@,
    ) is Some) {
        let file = part.get("file"@)->0;
        &&& made_of(part, "type"@, "file"@, "file"@)
        &&& made_of(file, "file_id"@, "file_data"@, "filename"@)
        &&& file.get("file_id"@) is None || file.get("file_data"@) is None
        &&& text_if_any(file, "filename"@)
    } else {
        true
    }
}

/// No field has a name that is none of these.
proof fn lemma_made_of(value: JsonView, a: Seq<char>, b: Seq<char>, c: Seq<char>, key: Seq<char>)
    requires
        made_of(value, a, b, c),
        key != a,
        key != b,
        key != c,
    ensures
        find(value.fields(), key) is None,
{
    lemma_index_of_bounds(value.fields(), key);
}

/// An object of one tag and one field is the same JSON as another, where what the
/// field holds is.
proof fn lemma_same_part(part: JsonView, tag: Seq<char>, key: Seq<char>, inner: JsonView)
    requires
        made_of(part, "type"@, key, key),
        key != "type"@,
        part.str_at("type"@) == Some(tag),
        part.get(key) is Some,
        same_json(inner, part.get(key)->0),
    ensures
        same_json(JsonView::Object(fields2("type"@, string(tag), key, inner)), part),
{
    broadcast use group_find;

    let made = fields2("type"@, string(tag), key, inner);
    assert forall|k: Seq<char>| #[trigger]
        meaning_at(made, k) == meaning_at(part.fields(), k) by {
        if k != "type"@ && k != key {
            lemma_made_of(part, "type"@, key, key, k);
        }
    }
    lemma_same_object(made, part.fields());
}

/// A part that is read and rendered is the part it was.
pub proof fn law_a_part_round_trips(part: JsonView)
    requires
        pure_part(part),
    ensures
        rendered_part(ingested_part(part)) matches Some(rendered) && same_json(rendered, part),
{
    broadcast use group_find;

    lemma_part_keys();
    lemma_inner_keys();
    let tag = part.str_at("type"@);
    match ingested_part(part) {
        ContentBlockView::Text { text, .. } => {
            lemma_same_part(part, "text"@, "text"@, string(text));
        },
        ContentBlockView::Image { source, detail, .. } => {
            let image = part.get("image_url"@)->0;
            law_a_media_url_is_put_together_again(part.str_in("image_url"@, "url"@)->0);
            let made = assigned(
                fields1("url"@, string(url_of(source))),
                "detail"@,
                opt_string(detail),
            );
            assert forall|k: Seq<char>| #[trigger]
                meaning_at(made, k) == meaning_at(image.fields(), k) by {
                if k != "url"@ && k != "detail"@ {
                    lemma_made_of(image, "url"@, "detail"@, "detail"@, k);
                }
            }
            lemma_same_object(made, image.fields());
            lemma_same_part(part, "image_url"@, "image_url"@, JsonView::Object(made));
        },
        ContentBlockView::Audio { source, format } => {
            let audio = part.get("input_audio"@)->0;
            let data = part.str_in("input_audio"@, "data"@)->0;
            let made = fields2("data"@, string(data), "format"@, string(format->0));
            assert forall|k: Seq<char>| #[trigger]
                meaning_at(made, k) == meaning_at(audio.fields(), k) by {
                if k != "data"@ && k != "format"@ {
                    lemma_made_of(audio, "data"@, "format"@, "format"@, k);
                }
            }
            lemma_same_object(made, audio.fields());
            lemma_same_part(part, "input_audio"@, "input_audio"@, JsonView::Object(made));
        },
        ContentBlockView::Document { source, title, .. } => {
            let file = part.get("file"@)->0;
            let key = if file.str_at("file_id"@) is Some {
                "file_id"@
            } else {
                "file_data"@
            };
            let made = file_fields(key, file.str_at(key)->0, title);
            assert forall|k: Seq<char>| #[trigger]
                meaning_at(made, k) == meaning_at(file.fields(), k) by {
                if k != "file_id"@ && k != "file_data"@ && k != "filename"@ {
                    lemma_made_of(file, "file_id"@, "file_data"@, "filename"@, k);
                }
            }
            lemma_same_object(made, file.fields());
            lemma_same_part(part, "file"@, "file"@, JsonView::Object(made));
        },
        _ => {},
    }
}

/// Every block is a part of the content but a call, the result of one, and
/// reasoning.
pub proof fn law_what_is_no_part(block: ContentBlockView)
    ensures
        rendered_part(block) is None <==> block is ToolCall || block is ToolResult
            || block is Reasoning,
{
}

/// The message without a `null` that means no more than an absent field.
pub open spec fn plain_message(message: JsonView) -> JsonView {
    JsonView::Object(
        sans_null(sans_null(message.fields(), "tool_calls"@), "tool_call_id"@),
    )
}

/// The fields without a list of sequences to stop at that is empty.
pub open spec fn sans_empty_stop(fields: FieldsView) -> FieldsView {
    if find(fields, "stop"@) matches Some(JsonView::Array(items)) && items.len() == 0 {
        without(fields, "stop"@)
    } else {
        fields
    }
}

/// A request: a document of its shape, in which no object names a field twice.
pub open spec fn well_formed_request(request: JsonView) -> bool {
    request_shape(request) && keys_distinct(request)
}

/// The request with the model it was routed to. Whether to stream is said only
/// where it is asked for; an empty list of sequences to stop at is left out, and
/// so is a `null` that means no more than an absent field.
pub open spec fn routed(request: JsonView, model: Seq<char>) -> JsonView {
    let f = sans_null(sans_null(request.fields(), "tools"@), "tool_choice"@);
    let f = sans_empty_stop(sans_null(f, "response_format"@));
    let messages = request.items_at("messages"@).map_values(|m: JsonView| plain_message(m));
    JsonView::Object(
        assigned(
            put(put(f, "model"@, string(model)), "messages"@, JsonView::Array(messages)),
            "stream"@,
            if request.bool_at("stream"@) == Some(true) {
                Some(JsonView::Bool(true))
            } else {
                None
            },
        ),
    )
}

proof fn lemma_results_concat(a: Seq<ContentBlockView>, b: Seq<ContentBlockView>)
    ensures
        results_of(a + b) == results_of(a) + results_of(b),
    decreases b.len(),
{
    if b.len() == 0 {
        assert(a + b =~= a);
    } else {
        lemma_results_concat(a, b.drop_last());
        assert((a + b).drop_last() =~= a + b.drop_last());
        assert((a + b).last() == b.last());
        assert(results_of(a + b) =~= results_of(a) + results_of(b));
    }
}

proof fn lemma_no_results(blocks: Seq<ContentBlockView>)
    requires
        forall|i: int| 0 <= i < blocks.len() ==> !(#[trigger] blocks[i] is ToolResult),
    ensures
        results_of(blocks).len() == 0,
    decreases blocks.len(),
{
    if blocks.len() > 0 {
        let rest = blocks.drop_last();
        assert forall|i: int| 0 <= i < rest.len() implies !(#[trigger] rest[i] is ToolResult) by {
            assert(rest[i] == blocks[i]);
        }
        lemma_no_results(rest);
    }
}

proof fn lemma_no_calls(blocks: Seq<ContentBlockView>)
    requires
        forall|i: int| 0 <= i < blocks.len() ==> !(#[trigger] blocks[i] is ToolCall),
    ensures
        calls_of(blocks).len() == 0,
    decreases blocks.len(),
{
    if blocks.len() > 0 {
        let rest = blocks.drop_last();
        assert forall|i: int| 0 <= i < rest.len() implies !(#[trigger] rest[i] is ToolCall) by {
            assert(rest[i] == blocks[i]);
        }
        lemma_no_calls(rest);
    }
}

proof fn lemma_no_content(blocks: Seq<ContentBlockView>)
    requires
        forall|i: int|
            0 <= i < blocks.len() ==> #[trigger] blocks[i] is ToolCall || whole_call(blocks[i]),
    ensures
        rendered_content(blocks, true) is None,
{
    lemma_no_parts(blocks);
    lemma_no_result_at(blocks);
}

proof fn lemma_no_parts(blocks: Seq<ContentBlockView>)
    requires
        forall|i: int|
            0 <= i < blocks.len() ==> #[trigger] blocks[i] is ToolCall || whole_call(blocks[i]),
    ensures
        content_of(blocks, true).len() == 0,
    decreases blocks.len(),
{
    if blocks.len() > 0 {
        let rest = blocks.drop_last();
        assert forall|i: int| 0 <= i < rest.len() implies #[trigger] rest[i] is ToolCall
            || whole_call(rest[i]) by {
            assert(rest[i] == blocks[i]);
        }
        assert(blocks[blocks.len() - 1] is ToolCall || whole_call(blocks.last()));
        lemma_no_parts(rest);
    }
}

proof fn lemma_no_result_at(blocks: Seq<ContentBlockView>)
    requires
        forall|i: int|
            0 <= i < blocks.len() ==> #[trigger] blocks[i] is ToolCall || whole_call(blocks[i]),
    ensures
        result_at(blocks) == blocks.len(),
    decreases blocks.len(),
{
    if blocks.len() > 0 {
        let rest = blocks.drop_first();
        assert forall|i: int| 0 <= i < rest.len() implies #[trigger] rest[i] is ToolCall
            || whole_call(rest[i]) by {
            assert(rest[i] == blocks[i + 1]);
        }
        assert(blocks[0] is ToolCall || whole_call(blocks[0]));
        lemma_no_result_at(rest);
    }
}

/// What the content of a wire message is made of.
proof fn lemma_content_blocks(message: JsonView)
    ensures
        forall|i: int|
            0 <= i < content_blocks(message).len() ==> {
                let block = #[trigger] content_blocks(message)[i];
                &&& !(block is ToolResult)
                &&& !(block is ToolCall)
                &&& !cache_hinted(block)
                &&& !failed_result(block)
            },
{
    match message.get("content"@) {
        Some(JsonView::Array(parts)) => {
            assert forall|i: int| 0 <= i < parts.len() implies ({
                let block = #[trigger] content_blocks(message)[i];
                &&& !(block is ToolResult)
                &&& !(block is ToolCall)
                &&& !cache_hinted(block)
                &&& !failed_result(block)
            }) by {
                assert(content_blocks(message)[i] == ingested_part(parts[i]));
            }
        },
        _ => {},
    }
}

/// Nothing that a wire message stands for asks for caching or failed.
proof fn lemma_message_blocks(message: JsonView)
    ensures
        !any_cache_hinted(message_blocks(message)),
        !any_failed_result(message_blocks(message)),
        results_of(message_blocks(message)).len() <= 1,
        message.str_at("tool_call_id"@) is None ==> results_of(message_blocks(message)).len() == 0,
{
    let content = content_blocks(message);
    let calls = message.items_at("tool_calls"@).map_values(|call: JsonView| ingested_call(call));
    let blocks = message_blocks(message);
    lemma_content_blocks(message);
    let said = match message.str_at("tool_call_id"@) {
        Some(call_id) => seq![
            ContentBlockView::ToolResult { call_id, content, is_error: false },
        ],
        None => content,
    };
    assert(blocks == said + calls);
    assert(!any_cache_hinted(content));
    assert(!any_failed_result(content));
    assert forall|i: int| 0 <= i < blocks.len() implies !cache_hinted(#[trigger] blocks[i])
        && !failed_result(blocks[i]) by {
        if i < said.len() {
            assert(blocks[i] == said[i]);
            if message.str_at("tool_call_id"@) is None {
                assert(said[i] == content[i]);
            }
        } else {
            assert(blocks[i] == ingested_call(
                message.items_at("tool_calls"@)[i - said.len()],
            ));
        }
    }
    assert forall|i: int| 0 <= i < calls.len() implies !(#[trigger] calls[i] is ToolResult) by {
        assert(calls[i] == ingested_call(message.items_at("tool_calls"@)[i]));
    }
    lemma_no_results(calls);
    lemma_results_concat(said, calls);
    if message.str_at("tool_call_id"@) is None {
        assert forall|i: int| 0 <= i < said.len() implies !(#[trigger] said[i] is ToolResult) by {
            assert(said[i] == content[i]);
        }
        lemma_no_results(said);
    } else {
        assert(said.drop_last() =~= Seq::<ContentBlockView>::empty());
        assert(results_of(said.drop_last()).len() == 0);
        assert(results_of(said).len() == 1);
    }
}

/// A message that carries no content renders none.
proof fn lemma_absent_content(message: JsonView)
    requires
        message.get("content"@) is None,
        message_shape(message),
    ensures
        ({
            let called = present(message.fields(), "tool_calls"@, |v: JsonView| calls_shape(v));
            rendered_content(message_blocks(message), called) is None
        }),
{
    let blocks = message_blocks(message);
    let calls = message.items_at("tool_calls"@).map_values(|call: JsonView| ingested_call(call));
    let none = Seq::<ContentBlockView>::empty();
    assert(content_blocks(message) == none);
    assert(rendered_content(none, false) is None);
    match message.str_at("tool_call_id"@) {
        Some(call_id) => {
            let result = ContentBlockView::ToolResult { call_id, content: none, is_error: false };
            assert(blocks[0] == result);
            assert(result_at(blocks) == 0);
        },
        None => {
            assert(blocks =~= calls);
            match message.get("tool_calls"@) {
                Some(JsonView::Array(items)) => {
                    assert(calls_shape(JsonView::Array(items)));
                    assert forall|i: int| 0 <= i < calls.len() implies #[trigger] calls[i]
                        is ToolCall || whole_call(calls[i]) by {
                        assert(call_shape(items[i]));
                        assert(calls[i] == ingested_call(items[i]));
                    }
                    lemma_no_content(calls);
                },
                _ => {
                    assert(calls =~= none);
                },
            }
        },
    }
}

/// A message that makes no calls renders none.
proof fn lemma_absent_calls(message: JsonView)
    requires
        message.items_at("tool_calls"@).len() == 0,
    ensures
        rendered_calls(message_blocks(message)) is None,
{
    let blocks = message_blocks(message);
    let content = content_blocks(message);
    lemma_content_blocks(message);
    assert forall|i: int| 0 <= i < blocks.len() implies !(#[trigger] blocks[i] is ToolCall) by {
        if message.str_at("tool_call_id"@) is None {
            assert(blocks[i] == content[i]);
        }
    }
    lemma_no_calls(blocks);
}

/// A message that is read and rendered has the fields it had.
proof fn lemma_message_round_trip(message: JsonView, provider: Seq<char>, key: Seq<char>)
    requires
        message_shape(message),
        distinct(message.fields()),
    ensures
        rendered_message(ingested_message(message), provider).len() == 1,
        rendered_message(ingested_message(message), provider)[0] is Object,
        find(rendered_message(ingested_message(message), provider)[0].fields(), key) == find(
            plain_message(message).fields(),
            key,
        ),
{
    broadcast use group_find;

    lemma_message_keys();
    lemma_message_blocks(message);
    let fields = message.fields();
    let residue = message_residue(fields);
    lemma_distinct_without(fields, "role"@);
    lemma_distinct_sans_null(role_residue(fields), "tool_calls"@);
    lemma_distinct_sans_null(
        sans_null(role_residue(fields), "tool_calls"@),
        "tool_call_id"@,
    );
    let view = ingested_message(message);
    let kept = merged(Protocol::OpenAiCompat, view.ext, provider);
    law_a_kept_bag_is_read_back(Protocol::OpenAiCompat, residue, provider, "role"@);
    law_a_kept_bag_is_read_back(Protocol::OpenAiCompat, residue, provider, "content"@);
    law_a_kept_bag_is_read_back(Protocol::OpenAiCompat, residue, provider, "tool_calls"@);
    law_a_kept_bag_is_read_back(Protocol::OpenAiCompat, residue, provider, "tool_call_id"@);
    law_a_kept_bag_is_read_back(Protocol::OpenAiCompat, residue, provider, key);
    let word = message.str_at("role"@)->0;
    assert(find(fields, "role"@) == Some(string(word)));
    law_known_roles_round_trip(view.role, word);
    assert(rendered_role(kept, view.role) == word);
    if message.get("content"@) is None {
        lemma_absent_content(message);
    }
    match message.get("tool_calls"@) {
        Some(JsonView::Array(items)) => {
            assert(calls_shape(JsonView::Array(items)));
        },
        _ => {
            lemma_absent_calls(message);
        },
    }
}

/// The messages that are read and rendered are the messages there were.
proof fn lemma_messages_round_trip(messages: Seq<JsonView>, provider: Seq<char>)
    requires
        all_items(messages, |message: JsonView| message_shape(message)),
        forall|i: int| 0 <= i < messages.len() ==> distinct((#[trigger] messages[i]).fields()),
    ensures
        ({
            let rendered = rendered_messages(
                messages.map_values(|message: JsonView| ingested_message(message)),
                provider,
            );
            &&& rendered.len() == messages.len()
            &&& forall|i: int|
                0 <= i < messages.len() ==> same_json(
                    #[trigger] rendered[i],
                    plain_message(messages[i]),
                )
        }),
    decreases messages.len(),
{
    let views = messages.map_values(|message: JsonView| ingested_message(message));
    if messages.len() > 0 {
        let rest = messages.drop_last();
        assert forall|i: int| 0 <= i < rest.len() implies message_shape(#[trigger] rest[i])
            && distinct(rest[i].fields()) by {
            assert(rest[i] == messages[i]);
            assert(message_shape(messages[i]));
        }
        lemma_messages_round_trip(rest, provider);
        let rest_views = rest.map_values(|message: JsonView| ingested_message(message));
        assert(views.drop_last() =~= rest_views);
        let last = messages.last();
        assert(message_shape(messages[messages.len() - 1]));
        assert(views.last() == ingested_message(last));
        let one = rendered_message(ingested_message(last), provider);
        assert forall|key: Seq<char>|
            #[trigger]
            meaning_at(one[0].fields(), key) == meaning_at(plain_message(last).fields(), key) by {
            lemma_message_round_trip(last, provider, key);
        }
        lemma_message_round_trip(last, provider, "role"@);
        lemma_same_object(one[0].fields(), plain_message(last).fields());
        let rendered = rendered_messages(views, provider);
        let before = rendered_messages(rest_views, provider);
        assert(rendered == before + one);
        assert forall|i: int| 0 <= i < messages.len() implies same_json(
            #[trigger] rendered[i],
            plain_message(messages[i]),
        ) by {
            if i < rest.len() {
                assert(rendered[i] == before[i]);
                assert(rest[i] == messages[i]);
            } else {
                assert(rendered[i] == one[0]);
            }
        }
    }
}

/// Settling how to sample takes an empty list of sequences to stop at out, and
/// changes nothing else, where each field was kept or is nowhere given.
proof fn lemma_params_settled(params: GenerationParamsView, f: FieldsView, key: Seq<char>)
    requires
        present(f, "temperature"@, |v: JsonView| nullable_number(v)) || (find(f, "temperature"@)
            is None && params.temperature is None),
        present(f, "max_tokens"@, |v: JsonView| nullable_u32(v)) || (find(f, "max_tokens"@) is None
            && limit_of(params, f) is None),
        present(f, "top_p"@, |v: JsonView| nullable_number(v)) || (find(f, "top_p"@) is None
            && params.top_p is None),
        find(f, "top_k"@) is Some || params.top_k is None,
        present(f, "stop"@, |v: JsonView| kept_stop(v)) || (find(sans_empty_stop(f), "stop"@)
            is None && params.stop.len() == 0),
    ensures
        find(with_params(params, f), key) == find(sans_empty_stop(f), key),
{
    broadcast use group_find;

    lemma_param_keys();
}

/// Settling the form changes nothing where each field was kept or is nowhere
/// given.
proof fn lemma_form_settled(request: ChatRequestView, f: FieldsView, key: Seq<char>)
    requires
        present(f, "stream_options"@, |v: JsonView| stream_options_shape(v)) || (find(
            f,
            "stream_options"@,
        ) is None && request.stream_include_usage is None),
        find(f, "tool_choice"@) is Some || request.tool_choice is None,
        find(f, "parallel_tool_calls"@) is Some || request.parallel_tool_calls is None,
        present(f, "response_format"@, |v: JsonView| response_format_shape(v)) || (find(
            f,
            "response_format"@,
        ) is None && request.response_format is None),
        present(f, "reasoning_effort"@, |v: JsonView| nullable_string(v)) || (find(
            f,
            "reasoning_effort"@,
        ) is None && request.reasoning is None),
    ensures
        find(with_form(request, f), key) == find(f, key),
{
    broadcast use group_find;

    lemma_form_keys();
}

/// Nothing that a wire request stands for is refused.
proof fn lemma_not_refused(request: JsonView, model: Seq<char>)
    ensures
        refusal(ingested_request(request, model)) is None,
{
    let view = ingested_request(request, model);
    assert forall|i: int| 0 <= i < view.tools.len() implies (#[trigger] view.tools[i]).cache
        is None by {
        assert(view.tools[i] == ingested_tool(request.items_at("tools"@)[i]));
    }
    assert forall|i: int| 0 <= i < view.messages.len() implies !any_cache_hinted(
        (#[trigger] view.messages[i]).content,
    ) && !any_failed_result(view.messages[i].content) by {
        let message = request.items_at("messages"@)[i];
        assert(view.messages[i] == ingested_message(message));
        lemma_message_blocks(message);
    }
}

/// What is kept of the fields of a request.
pub open spec fn kept_field(fields: FieldsView, key: Seq<char>) -> Option<JsonView> {
    if key == "model"@ || key == "messages"@ || key == "stream"@ {
        None
    } else if (key == "tools"@ || key == "tool_choice"@ || key == "response_format"@) && find(
        fields,
        key,
    ) == Some(JsonView::Null) {
        None
    } else {
        find(fields, key)
    }
}

proof fn lemma_kept_field(
    request: JsonView,
    model: Seq<char>,
    provider: Seq<char>,
    key: Seq<char>,
)
    requires
        distinct(request.fields()),
    ensures
        find(
            merged(Protocol::OpenAiCompat, ingested_request(request, model).ext, provider),
            key,
        ) == kept_field(request.fields(), key),
{
    broadcast use group_find;

    lemma_head_keys();
    lemma_form_keys();
    let fields = request.fields();
    let residue = request_residue(fields);
    lemma_distinct_without(fields, "model"@);
    let f1 = without(fields, "model"@);
    lemma_distinct_without(f1, "messages"@);
    let f2 = without(f1, "messages"@);
    lemma_distinct_without(f2, "stream"@);
    let f3 = without(f2, "stream"@);
    lemma_distinct_sans_null(f3, "tools"@);
    let f4 = sans_null(f3, "tools"@);
    lemma_distinct_sans_null(f4, "tool_choice"@);
    lemma_distinct_sans_null(sans_null(f4, "tool_choice"@), "response_format"@);
    law_a_kept_bag_is_read_back(Protocol::OpenAiCompat, residue, provider, key);
}

/// What each field of a routed request is.
proof fn lemma_routed(request: JsonView, model: Seq<char>, key: Seq<char>)
    ensures
        ({
            let fields = request.fields();
            let empty = find(fields, "stop"@) matches Some(JsonView::Array(items)) && items.len()
                == 0;
            find(routed(request, model).fields(), key) == if key == "model"@ {
                Some(string(model))
            } else if key == "messages"@ {
                Some(
                    JsonView::Array(
                        request.items_at("messages"@).map_values(|m: JsonView| plain_message(m)),
                    ),
                )
            } else if key == "stream"@ {
                if request.bool_at("stream"@) == Some(true) {
                    Some(JsonView::Bool(true))
                } else {
                    None
                }
            } else if key == "stop"@ && empty {
                None
            } else {
                kept_field(fields, key)
            }
        }),
{
    broadcast use group_find;

    lemma_request_keys();
}

/// The fields of a request once its tools and how to sample are settled.
proof fn lemma_sampled(
    request: JsonView,
    model: Seq<char>,
    kept: FieldsView,
    key: Seq<char>,
)
    requires
        request_shape(request),
        forall|k: Seq<char>| #[trigger] find(kept, k) == kept_field(request.fields(), k),
    ensures
        ({
            let view = ingested_request(request, model);
            let tooled = settled(
                kept,
                "tools"@,
                present(kept, "tools"@, |v: JsonView| tools_shape(v)),
                tools_field(view.tools),
            );
            let empty = find(request.fields(), "stop"@) matches Some(JsonView::Array(items))
                && items.len() == 0;
            &&& present(kept, "tools"@, |v: JsonView| tools_shape(v)) || view.tools.len() == 0
            &&& find(with_params(view.params, tooled), key) == if key == "stop"@ && empty {
                None
            } else {
                kept_field(request.fields(), key)
            }
        }),
{
    broadcast use group_find;

    lemma_request_keys();
    let fields = request.fields();
    let view = ingested_request(request, model);
    let tooled = settled(
        kept,
        "tools"@,
        present(kept, "tools"@, |v: JsonView| tools_shape(v)),
        tools_field(view.tools),
    );
    assert(find(kept, "tools"@) == kept_field(fields, "tools"@));
    match find(kept, "tools"@) {
        Some(tools) => {
            assert(tools_shape(tools));
        },
        None => {
            assert(view.tools.len() == 0);
        },
    }
    assert forall|k: Seq<char>| #[trigger] find(tooled, k) == kept_field(fields, k) by {
        assert(find(kept, k) == kept_field(fields, k));
    }
    assert(find(tooled, "temperature"@) == find(fields, "temperature"@));
    assert(find(tooled, "max_tokens"@) == find(fields, "max_tokens"@));
    assert(find(tooled, "max_completion_tokens"@) == find(fields, "max_completion_tokens"@));
    assert(find(tooled, "top_p"@) == find(fields, "top_p"@));
    assert(find(tooled, "top_k"@) == find(fields, "top_k"@));
    assert(find(tooled, "stop"@) == find(fields, "stop"@));
    match find(fields, "stop"@) {
        Some(stop) => {
            assert(stop_shape(stop));
        },
        None => {},
    }
    lemma_params_settled(view.params, tooled, key);
    assert(find(tooled, key) == kept_field(fields, key));
}

/// What becomes of each field of a request.
proof fn lemma_request_fields(
    request: JsonView,
    model: Seq<char>,
    provider: Seq<char>,
    messages: Seq<JsonView>,
    key: Seq<char>,
)
    requires
        request_shape(request),
        distinct(request.fields()),
    ensures
        ({
            let view = ingested_request(request, model);
            let kept = merged(Protocol::OpenAiCompat, view.ext, provider);
            find(request_fields(view, kept, messages), key) == if key == "messages"@ {
                Some(JsonView::Array(messages))
            } else {
                find(routed(request, model).fields(), key)
            }
        }),
        ({
            let view = ingested_request(request, model);
            let kept = merged(Protocol::OpenAiCompat, view.ext, provider);
            present(kept, "tools"@, |v: JsonView| tools_shape(v)) || view.tools.len() == 0
        }),
{
    let fields = request.fields();
    let view = ingested_request(request, model);
    let kept = merged(Protocol::OpenAiCompat, view.ext, provider);
    assert forall|k: Seq<char>| #[trigger] find(kept, k) == kept_field(fields, k) by {
        lemma_kept_field(request, model, provider, k);
    }
    let tooled = settled(
        kept,
        "tools"@,
        present(kept, "tools"@, |v: JsonView| tools_shape(v)),
        tools_field(view.tools),
    );
    let sampled = with_params(view.params, tooled);
    lemma_request_keys();
    lemma_sampled(request, model, kept, "stream_options"@);
    lemma_sampled(request, model, kept, "tool_choice"@);
    lemma_sampled(request, model, kept, "parallel_tool_calls"@);
    lemma_sampled(request, model, kept, "response_format"@);
    lemma_sampled(request, model, kept, "reasoning_effort"@);
    lemma_sampled(request, model, kept, key);
    lemma_form_settled(view, sampled, key);
    lemma_routed(request, model, key);
    lemma_head_fields(view.model, messages, view.stream, with_form(view, sampled), key);
}

/// What each field is once the model, the messages and whether to stream are set.
proof fn lemma_head_fields(
    model: Seq<char>,
    messages: Seq<JsonView>,
    stream: bool,
    fields: FieldsView,
    key: Seq<char>,
)
    ensures
        find(with_head(model, messages, stream, fields), key) == if key == "model"@ {
            Some(string(model))
        } else if key == "messages"@ {
            Some(JsonView::Array(messages))
        } else if key == "stream"@ {
            if stream {
                Some(JsonView::Bool(true))
            } else {
                None
            }
        } else {
            find(fields, key)
        },
{
    broadcast use group_find;

    lemma_head_keys();
}

/// A request that is read and rendered by this protocol, for whatever provider,
/// is the request there was, but for the model it was routed to, a `stream` that
/// is not asked for, an empty `stop`, and a `null` that means no more than an
/// absent field.
pub proof fn law_a_request_round_trips(request: JsonView, model: Seq<char>, provider: Seq<char>)
    requires
        well_formed_request(request),
    ensures
        rendered_request(ingested_request(request, model), provider) matches Ok(rendered)
            && same_json(rendered, routed(request, model)),
{
    broadcast use group_find;

    lemma_head_keys();
    let view = ingested_request(request, model);
    let kept = merged(Protocol::OpenAiCompat, view.ext, provider);
    let messages = request.items_at("messages"@);
    let rendered = rendered_messages(view.messages, provider);
    assert(distinct(request.fields()));
    lemma_not_refused(request, model);
    assert(messages_shape(request.get("messages"@)->0));
    assert forall|i: int| 0 <= i < messages.len() implies distinct(
        (#[trigger] messages[i]).fields(),
    ) by {
        lemma_index_of_bounds(request.fields(), "messages"@);
        let at = crate::json::index_of(request.fields(), "messages"@) as int;
        assert(keys_distinct(request.fields()[at].1));
        assert(keys_distinct(messages[i]));
    }
    lemma_messages_round_trip(messages, provider);
    let plain = messages.map_values(|m: JsonView| plain_message(m));
    assert forall|i: int| 0 <= i < messages.len() implies same_json(
        #[trigger] rendered[i],
        plain[i],
    ) by {
        assert(plain[i] == plain_message(messages[i]));
    }
    lemma_same_array(rendered, plain);
    lemma_request_fields(request, model, provider, rendered, "messages"@);
    let out = request_fields(view, kept, rendered);
    let goal = routed(request, model).fields();
    assert forall|key: Seq<char>| #[trigger] meaning_at(out, key) == meaning_at(goal, key) by {
        lemma_request_fields(request, model, provider, rendered, key);
        if key == "messages"@ {
            assert(find(goal, key) == Some(JsonView::Array(plain)));
        }
    }
    lemma_same_object(out, goal);
}

/// A request is never refused by the protocol it was read from.
pub proof fn law_a_request_read_here_is_never_refused(
    request: JsonView,
    model: Seq<char>,
    provider: Seq<char>,
)
    requires
        well_formed_request(request),
    ensures
        rendered_request(ingested_request(request, model), provider) is Ok,
{
    law_a_request_round_trips(request, model, provider);
}

} // verus!
