//! What the chunks of a stream put together are: what its events put together.
use vstd::prelude::*;

use crate::gateway::ext::{law_a_kept_bag_is_read_back, merged};
use crate::gateway::types::message::{ContentBlockView, ReasoningDetailView};
use crate::gateway::types::raw_value;
use crate::gateway::types::stream::{CompletionDeltaView, ContentDeltaView};
use crate::json::{find, group_find, lemma_distinct_without, JsonView};
use crate::json_text::keys_distinct;
use crate::types::{protocol_name, Protocol};

use super::exchange::{law_items_are_given_in_order, walked, ChatChunkStreamView, Given, Item};
use super::response::{ingested_block, ingested_usage, own_reasoning, u32_or_zero};
use super::stream::{
    block_fragment, delta_fragment, end_chunk, ingested_event, kind_of, latest, part, start_chunk,
    stream_usage, EventKind, StreamStateView,
};
use super::wire::usage_shape;

verus! {

/// What the pieces of a block make up.
#[derive(Debug, Clone, Copy, PartialEq, Eq, Structural)]
pub enum Piece {
    Text,
    Thinking,
    CallId,
    CallName,
    Arguments,
    /// What Anthropic signs thinking with.
    Signature,
}

/// The signature that a delta of a block gives.
pub open spec fn signed(delta: JsonView) -> Seq<char> {
    if delta.str_at("type"@) == Some("signature_delta"@) {
        or_nothing(delta.str_at("signature"@))
    } else {
        Seq::empty()
    }
}

/// A text, or an empty one.
pub open spec fn or_nothing(text: Option<Seq<char>>) -> Seq<char> {
    match text {
        Some(text) => text,
        None => Seq::empty(),
    }
}

/// The piece that the start of a block gives.
pub open spec fn opened(block: JsonView, piece: Piece) -> Seq<char> {
    let tag = block.str_at("type"@);
    let called = tag == Some("tool_use"@) && block.str_at("id"@) is Some && block.str_at("name"@)
        is Some;
    match piece {
        Piece::Text => if tag == Some("text"@) {
            or_nothing(block.str_at("text"@))
        } else {
            Seq::empty()
        },
        Piece::Thinking => if tag == Some("thinking"@) {
            or_nothing(block.str_at("thinking"@))
        } else {
            Seq::empty()
        },
        Piece::CallId => if called {
            or_nothing(block.str_at("id"@))
        } else {
            Seq::empty()
        },
        Piece::CallName => if called {
            or_nothing(block.str_at("name"@))
        } else {
            Seq::empty()
        },
        Piece::Arguments => Seq::empty(),
        Piece::Signature => signed(block),
    }
}

/// The piece that a delta of a block gives.
pub open spec fn continued(delta: JsonView, piece: Piece) -> Seq<char> {
    let tag = delta.str_at("type"@);
    match piece {
        Piece::Text => if tag == Some("text_delta"@) {
            or_nothing(delta.str_at("text"@))
        } else {
            Seq::empty()
        },
        Piece::Thinking => if tag == Some("thinking_delta"@) {
            or_nothing(delta.str_at("thinking"@))
        } else {
            Seq::empty()
        },
        Piece::Arguments => if tag == Some("input_json_delta"@) {
            or_nothing(delta.str_at("partial_json"@))
        } else {
            Seq::empty()
        },
        Piece::CallId | Piece::CallName => Seq::empty(),
        Piece::Signature => signed(delta),
    }
}

/// The piece that an item of the upstream gives to a block.
pub open spec fn sent(item: Item, index: u32, piece: Piece) -> Seq<char> {
    match item {
        Ok(event) => match kind_of(event) {
            EventKind::BlockStart => if event.u32_at("index"@) == Some(index) {
                opened(part(event, "content_block"@), piece)
            } else {
                Seq::empty()
            },
            EventKind::BlockDelta => if event.u32_at("index"@) == Some(index) {
                continued(part(event, "delta"@), piece)
            } else {
                Seq::empty()
            },
            _ => Seq::empty(),
        },
        Err(_) => Seq::empty(),
    }
}

/// The pieces that the items give to a block, put together.
pub open spec fn sent_in_all(items: Seq<Item>, index: u32, piece: Piece) -> Seq<char>
    decreases items.len(),
{
    if items.len() == 0 {
        Seq::empty()
    } else {
        sent_in_all(items.drop_last(), index, piece) + sent(items.last(), index, piece)
    }
}

/// The block that a chunk's fragment belongs to.
pub open spec fn block_of(completion: CompletionDeltaView) -> Option<u32> {
    let kept = merged(
        Protocol::Anthropic,
        completion.delta.ext,
        protocol_name(Protocol::Anthropic),
    );
    match find(kept, "index"@) {
        Some(index) => index.as_u32(),
        None => None,
    }
}

/// The piece that a fragment holds.
pub open spec fn held(fragment: ContentDeltaView, piece: Piece) -> Seq<char> {
    match (fragment, piece) {
        (ContentDeltaView::Text { text }, Piece::Text) => text,
        (ContentDeltaView::Reasoning { text, .. }, Piece::Thinking) => text,
        (ContentDeltaView::ToolCall { id, .. }, Piece::CallId) => or_nothing(id),
        (ContentDeltaView::ToolCall { name, .. }, Piece::CallName) => or_nothing(name),
        (ContentDeltaView::ToolCall { arguments, .. }, Piece::Arguments) => or_nothing(arguments),
        (ContentDeltaView::Unknown(delta), Piece::Signature) => signed(delta),
        _ => Seq::empty(),
    }
}

/// The pieces that fragments hold, put together.
pub open spec fn held_in_all(fragments: Seq<ContentDeltaView>, piece: Piece) -> Seq<char>
    decreases fragments.len(),
{
    if fragments.len() == 0 {
        Seq::empty()
    } else {
        held_in_all(fragments.drop_last(), piece) + held(fragments.last(), piece)
    }
}

/// The piece that a chunk gives to a block.
pub open spec fn received(given: Given, index: u32, piece: Piece) -> Seq<char> {
    match given {
        Ok(chunk) => if chunk.completions.len() > 0 && block_of(chunk.completions[0]) == Some(
            index,
        ) {
            held_in_all(chunk.completions[0].delta.content, piece)
        } else {
            Seq::empty()
        },
        Err(_) => Seq::empty(),
    }
}

/// The pieces that the chunks give to a block, put together.
pub open spec fn received_in_all(given: Seq<Given>, index: u32, piece: Piece) -> Seq<char>
    decreases given.len(),
{
    if given.len() == 0 {
        Seq::empty()
    } else {
        received_in_all(given.drop_last(), index, piece) + received(given.last(), index, piece)
    }
}

/// No object within an event names a field twice.
pub open spec fn named_once(items: Seq<Item>) -> bool {
    forall|i: int|
        0 <= i < items.len() ==> ((#[trigger] items[i]) matches Ok(event) ==> keys_distinct(event))
}

proof fn lemma_one(fragment: ContentDeltaView, piece: Piece)
    ensures
        held_in_all(seq![fragment], piece) == held(fragment, piece),
{
    let one = seq![fragment];
    assert(one.drop_last() =~= Seq::<ContentDeltaView>::empty());
    assert(held_in_all(one.drop_last(), piece) =~= Seq::<char>::empty());
    assert(held_in_all(one, piece) =~= held(fragment, piece));
}

/// The names differ.
proof fn lemma_keys()
    ensures
        "type"@ != "index"@,
        "type"@ != "role"@,
        "index"@ != "role"@,
{
    reveal_strlit("type");
    reveal_strlit("index");
    reveal_strlit("role");
    assert("type"@.len() != "index"@.len());
    assert("type"@[0] != "role"@[0]);
    assert("index"@.len() != "role"@.len());
}

/// The tags of blocks differ.
proof fn lemma_tags()
    ensures
        "text"@ != "tool_use"@,
        "text"@ != "thinking"@,
        "text"@ != "signature_delta"@,
        "tool_use"@ != "thinking"@,
        "tool_use"@ != "signature_delta"@,
        "thinking"@ != "signature_delta"@,
{
    reveal_strlit("text");
    reveal_strlit("tool_use");
    reveal_strlit("thinking");
    reveal_strlit("signature_delta");
    assert("text"@.len() != "tool_use"@.len());
    assert("text"@.len() != "thinking"@.len());
    assert("text"@.len() != "signature_delta"@.len());
    assert("tool_use"@[1] != "thinking"@[1]);
    assert("tool_use"@.len() != "signature_delta"@.len());
    assert("thinking"@.len() != "signature_delta"@.len());
}

/// The tags of deltas differ.
proof fn lemma_delta_tags()
    ensures
        "text_delta"@ != "thinking_delta"@,
        "text_delta"@ != "input_json_delta"@,
        "text_delta"@ != "signature_delta"@,
        "thinking_delta"@ != "input_json_delta"@,
        "thinking_delta"@ != "signature_delta"@,
        "input_json_delta"@ != "signature_delta"@,
{
    reveal_strlit("text_delta");
    reveal_strlit("thinking_delta");
    reveal_strlit("input_json_delta");
    reveal_strlit("signature_delta");
    assert("text_delta"@.len() != "thinking_delta"@.len());
    assert("text_delta"@.len() != "input_json_delta"@.len());
    assert("text_delta"@.len() != "signature_delta"@.len());
    assert("thinking_delta"@.len() != "input_json_delta"@.len());
    assert("thinking_delta"@.len() != "signature_delta"@.len());
    assert("input_json_delta"@.len() != "signature_delta"@.len());
}

/// A chunk gives a block the piece that its event gave.
proof fn lemma_chunk(event: JsonView, state: StreamStateView, index: u32, piece: Piece)
    requires
        keys_distinct(event),
        kind_of(event) != EventKind::Failure,
    ensures
        match ingested_event(event, state).0 {
            Some(chunk) => received(Ok(chunk), index, piece) == sent(Ok(event), index, piece),
            None => sent(Ok(event), index, piece) == Seq::<char>::empty(),
        },
{
    broadcast use group_find;

    lemma_keys();
    lemma_tags();
    lemma_delta_tags();
    let kept = crate::json::without(event.fields(), "type"@);
    let at = u32_or_zero(event, "index"@);
    match kind_of(event) {
        EventKind::BlockStart => {
            lemma_distinct_without(event.fields(), "type"@);
            law_a_kept_bag_is_read_back(
                Protocol::Anthropic,
                kept,
                protocol_name(Protocol::Anthropic),
                "index"@,
            );
            lemma_one(block_fragment(part(event, "content_block"@), at), piece);
        },
        EventKind::BlockDelta => {
            lemma_distinct_without(event.fields(), "type"@);
            law_a_kept_bag_is_read_back(
                Protocol::Anthropic,
                kept,
                protocol_name(Protocol::Anthropic),
                "index"@,
            );
            lemma_one(delta_fragment(part(event, "delta"@), at), piece);
        },
        EventKind::MessageStart => {
            let content = start_chunk(event, state).completions[0].delta.content;
            assert(held_in_all(content, piece) =~= Seq::<char>::empty());
        },
        EventKind::MessageDelta => {
            let content = end_chunk(event, state).completions[0].delta.content;
            assert(held_in_all(content, piece) =~= Seq::<char>::empty());
        },
        _ => {},
    }
}

/// What the chunks of a stream give to a block, put together, is what its events
/// gave: of text, of thinking and its signature, and of a call's id, name and
/// arguments.
pub proof fn law_chunks_put_together_what_events_do(
    stream: ChatChunkStreamView,
    items: Seq<Item>,
    index: u32,
    piece: Piece,
)
    requires
        named_once(items),
    ensures
        received_in_all(walked(stream, items).0, index, piece) == sent_in_all(items, index, piece),
    decreases items.len(),
{
    if items.len() == 0 {
        assert(received_in_all(Seq::<Given>::empty(), index, piece) =~= Seq::<char>::empty());
    } else {
        let before = items.drop_last();
        let last = items.last();
        assert forall|i: int| 0 <= i < before.len() implies ((#[trigger] before[i]) matches Ok(
            event,
        ) ==> keys_distinct(event)) by {
            assert(before[i] == items[i]);
        }
        law_chunks_put_together_what_events_do(stream, before, index, piece);
        law_items_are_given_in_order(stream, before, last);
        assert(before.push(last) =~= items);
        let (given, between) = walked(stream, before);
        let all = walked(stream, items).0;
        let said = received_in_all(given, index, piece);
        assert(items[items.len() - 1] == last);
        if all.len() > given.len() {
            assert(all.drop_last() =~= given);
        }
        match last {
            Ok(event) => {
                if kind_of(event) != EventKind::Failure {
                    lemma_chunk(event, between.state, index, piece);
                }
            },
            Err(_) => {},
        }
        assert(said + Seq::<char>::empty() =~= said);
    }
}

/// The items stream a block of an unstreamed message: put together, what they give
/// at its place is what it holds.
pub open spec fn streams(items: Seq<Item>, index: u32, block: JsonView) -> bool {
    let tag = block.str_at("type"@);
    if tag == Some("text"@) {
        block.str_at("text"@) == Some(sent_in_all(items, index, Piece::Text))
    } else if tag == Some("thinking"@) {
        &&& block.str_at("thinking"@) == Some(sent_in_all(items, index, Piece::Thinking))
        &&& block.str_at("signature"@) == Some(sent_in_all(items, index, Piece::Signature))
    } else if tag == Some("tool_use"@) {
        &&& block.str_at("id"@) == Some(sent_in_all(items, index, Piece::CallId))
        &&& block.str_at("name"@) == Some(sent_in_all(items, index, Piece::CallName))
        &&& block.get("input"@) is Some
        &&& raw_value(sent_in_all(items, index, Piece::Arguments)) == block.get("input"@)
    } else {
        false
    }
}

/// What the chunks of a stream put together at a place is the block that the
/// unstreamed message has there, as it is read: the same text, the same thinking,
/// or the same call, whose arguments read as the same input.
pub proof fn law_a_streamed_block_is_the_unstreamed_one(
    stream: ChatChunkStreamView,
    items: Seq<Item>,
    index: u32,
    block: JsonView,
)
    requires
        named_once(items),
        streams(items, index, block),
    ensures
        ({
            let given = walked(stream, items).0;
            match ingested_block(block) {
                ContentBlockView::Text { text, .. } => text == received_in_all(
                    given,
                    index,
                    Piece::Text,
                ),
                ContentBlockView::Reasoning { .. } => ingested_block(block) == own_reasoning(
                    ReasoningDetailView::Text {
                        text: received_in_all(given, index, Piece::Thinking),
                        signature: Some(received_in_all(given, index, Piece::Signature)),
                    },
                ),
                ContentBlockView::ToolCall { id, name, .. } => {
                    &&& id == received_in_all(given, index, Piece::CallId)
                    &&& name == received_in_all(given, index, Piece::CallName)
                    &&& raw_value(received_in_all(given, index, Piece::Arguments)) == block.get(
                        "input"@,
                    )
                },
                _ => false,
            }
        }),
{
    law_chunks_put_together_what_events_do(stream, items, index, Piece::Text);
    law_chunks_put_together_what_events_do(stream, items, index, Piece::Thinking);
    law_chunks_put_together_what_events_do(stream, items, index, Piece::CallId);
    law_chunks_put_together_what_events_do(stream, items, index, Piece::CallName);
    law_chunks_put_together_what_events_do(stream, items, index, Piece::Arguments);
    law_chunks_put_together_what_events_do(stream, items, index, Piece::Signature);
    lemma_block_tags();
}

/// The tags of blocks differ.
proof fn lemma_block_tags()
    ensures
        "text"@ != "image"@,
        "text"@ != "document"@,
        "text"@ != "tool_use"@,
        "text"@ != "tool_result"@,
        "text"@ != "thinking"@,
        "image"@ != "document"@,
        "image"@ != "tool_use"@,
        "image"@ != "tool_result"@,
        "image"@ != "thinking"@,
        "document"@ != "tool_use"@,
        "document"@ != "tool_result"@,
        "document"@ != "thinking"@,
        "tool_use"@ != "tool_result"@,
        "tool_use"@ != "thinking"@,
        "tool_result"@ != "thinking"@,
{
    reveal_strlit("text");
    reveal_strlit("image");
    reveal_strlit("document");
    reveal_strlit("tool_use");
    reveal_strlit("tool_result");
    reveal_strlit("thinking");
    assert("text"@.len() != "image"@.len());
    assert("text"@.len() != "document"@.len());
    assert("text"@.len() != "tool_use"@.len());
    assert("text"@.len() != "tool_result"@.len());
    assert("text"@.len() != "thinking"@.len());
    assert("image"@.len() != "document"@.len());
    assert("image"@.len() != "tool_use"@.len());
    assert("image"@.len() != "tool_result"@.len());
    assert("image"@.len() != "thinking"@.len());
    assert("document"@[0] != "tool_use"@[0]);
    assert("document"@.len() != "tool_result"@.len());
    assert("document"@[0] != "thinking"@[0]);
    assert("tool_use"@.len() != "tool_result"@.len());
    assert("tool_use"@[1] != "thinking"@[1]);
    assert("tool_result"@.len() != "thinking"@.len());
}

/// The token counts that a stream reports are those of the unstreamed message,
/// where its events give the same counts between them.
pub proof fn law_streamed_counts_are_the_unstreamed_ones(
    event: JsonView,
    state: StreamStateView,
    usage: JsonView,
)
    requires
        usage_shape(usage),
        ({
            let last = part(event, "usage"@);
            let read = "cache_read_input_tokens"@;
            let written = "cache_creation_input_tokens"@;
            &&& usage.u32_at("output_tokens"@) == last.u32_at("output_tokens"@)
            &&& usage.u32_at("input_tokens"@) == latest(
                last.u32_at("input_tokens"@),
                state.input_tokens,
            )
            &&& usage.u32_at(read) == latest(last.u32_at(read), state.cache_read_tokens)
            &&& usage.u32_at(written) == latest(last.u32_at(written), state.cache_write_tokens)
        }),
    ensures
        ({
            let streamed = stream_usage(part(event, "usage"@), state);
            let whole = ingested_usage(usage);
            &&& streamed.input_tokens == whole.input_tokens
            &&& streamed.output_tokens == whole.output_tokens
            &&& streamed.total_tokens == whole.total_tokens
            &&& streamed.cache_read_tokens == whole.cache_read_tokens
            &&& streamed.cache_write_tokens == whole.cache_write_tokens
        }),
{
}

} // verus!
