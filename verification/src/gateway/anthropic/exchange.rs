//! One step of a streamed reply: what each event gives the caller.
use vstd::prelude::*;

use crate::error::{Error, ErrorView};
use crate::gateway::types::stream::{ChatResponseChunk, ChatResponseChunkView};
use crate::json::{Json, JsonView};
use crate::json_text::text_of_json;

use super::error::{error_from_parsed, reported};
use super::stream::{
    event_kind, fresh, ingest_event, ingested_event, kind_of, EventKind, StreamState,
    StreamStateView,
};

verus! {

/// The status of a stream that has begun.
pub const AFTER_THE_HEADERS: u16 = 200;

/// A stream of chunks from one provider.
#[derive(Debug)]
pub struct ChatChunkStream {
    provider: String,
    state: StreamState,
}

/// The value of a [`ChatChunkStream`].
#[verifier::ext_equal]
pub struct ChatChunkStreamView {
    pub provider: Seq<char>,
    pub state: StreamStateView,
}

impl View for ChatChunkStream {
    type V = ChatChunkStreamView;

    closed spec fn view(&self) -> ChatChunkStreamView {
        ChatChunkStreamView { provider: self.provider@, state: self.state@ }
    }
}

/// The failure that an event of a stream reports: the stream began well, so the
/// family alone says what it means.
pub open spec fn stream_failure(provider: Seq<char>, event: JsonView) -> ErrorView {
    reported(provider, AFTER_THE_HEADERS, text_of_json(event), Some(event), None, None)
}

/// What an event gives the caller, if anything, and the stream after it. A
/// failure is handed out, never taken for a sign of life or an end.
pub open spec fn stepped(stream: ChatChunkStreamView, event: JsonView) -> (
    Option<Result<ChatResponseChunkView, ErrorView>>,
    ChatChunkStreamView,
) {
    if kind_of(event) == EventKind::Failure {
        (Some(Err(stream_failure(stream.provider, event))), stream)
    } else {
        let (chunk, state) = ingested_event(event, stream.state);
        (
            match chunk {
                Some(chunk) => Some(Ok(chunk)),
                None => None,
            },
            ChatChunkStreamView { state, ..stream },
        )
    }
}

/// An item of the upstream: an event, or a failure of the transport.
pub type Item = Result<JsonView, ErrorView>;

/// What a stream hands to its caller.
pub type Given = Result<ChatResponseChunkView, ErrorView>;

/// What an item gives the caller, if anything, and the stream after it. A failure
/// of the transport is handed out as it is.
pub open spec fn taken(stream: ChatChunkStreamView, item: Item) -> (
    Option<Given>,
    ChatChunkStreamView,
) {
    match item {
        Ok(event) => stepped(stream, event),
        Err(error) => (Some(Err(error)), stream),
    }
}

/// What all the items give, in order, and the stream after them.
pub open spec fn walked(stream: ChatChunkStreamView, items: Seq<Item>) -> (
    Seq<Given>,
    ChatChunkStreamView,
)
    decreases items.len(),
{
    if items.len() == 0 {
        (Seq::empty(), stream)
    } else {
        let (first, after) = taken(stream, items[0]);
        let (later, last) = walked(after, items.drop_first());
        match first {
            Some(first) => (seq![first] + later, last),
            None => (later, last),
        }
    }
}

/// Reads on to the next item that gives something: what it gives, the stream
/// after it, and the items left.
pub open spec fn next_among(stream: ChatChunkStreamView, items: Seq<Item>) -> (
    Option<Given>,
    ChatChunkStreamView,
    Seq<Item>,
)
    decreases items.len(),
{
    if items.len() == 0 {
        (None, stream, items)
    } else {
        let (first, after) = taken(stream, items[0]);
        match first {
            Some(first) => (Some(first), after, items.drop_first()),
            None => next_among(after, items.drop_first()),
        }
    }
}

/// The value of an item.
pub open spec fn item_model(item: Result<Json, Error>) -> Item {
    match item {
        Ok(event) => Ok(event@),
        Err(error) => Err(error@),
    }
}

/// The value of several items.
pub open spec fn item_models(items: Seq<Result<Json, Error>>) -> Seq<Item> {
    items.map_values(|item: Result<Json, Error>| item_model(item))
}

/// The value of what an event gives.
pub open spec fn given(r: Option<Result<ChatResponseChunk, Error>>) -> Option<
    Result<ChatResponseChunkView, ErrorView>,
> {
    match r {
        Some(Ok(chunk)) => Some(Ok(chunk@)),
        Some(Err(error)) => Some(Err(error@)),
        None => None,
    }
}

impl ChatChunkStream {
    /// The start of a stream, at whose end token counts are reported or not.
    pub fn new(provider: &str, report_usage: bool) -> (r: Self)
        ensures
            r@ == (ChatChunkStreamView { provider: provider@, state: fresh(report_usage) }),
    {
        ChatChunkStream { provider: provider.to_owned(), state: StreamState::new(report_usage) }
    }

    /// Takes one event in. Nothing means that the next event is to be read.
    pub fn next(&mut self, event: &Json) -> (r: Option<Result<ChatResponseChunk, Error>>)
        ensures
            (given(r), final(self)@) == stepped(old(self)@, event@),
    {
        if event_kind(event) == EventKind::Failure {
            return Some(Err(self.failure(event)));
        }
        match ingest_event(event, &mut self.state) {
            Some(chunk) => Some(Ok(chunk)),
            None => None,
        }
    }

    /// Takes items in until one gives something. Nothing means that the items have
    /// come to their end; an event that carries nothing is skipped.
    pub fn next_from(&mut self, items: &mut Vec<Result<Json, Error>>) -> (r: Option<
        Result<ChatResponseChunk, Error>,
    >)
        ensures
            (given(r), final(self)@, item_models(final(items)@)) == next_among(
                old(self)@,
                item_models(old(items)@),
            ),
    {
        while items.len() > 0
            invariant
                next_among(self@, item_models(items@)) == next_among(
                    old(self)@,
                    item_models(old(items)@),
                ),
            decreases items.len(),
        {
            let ghost before = items@;
            let item = items.remove(0);
            assert(item_models(items@) =~= item_models(before).drop_first());
            assert(item_models(before)[0] == item_model(item));
            match item {
                Ok(event) => {
                    if let Some(chunk) = self.next(&event) {
                        return Some(chunk);
                    }
                },
                Err(error) => {
                    return Some(Err(error));
                },
            }
        }
        assert(item_models(items@).len() == 0);
        None
    }

    fn failure(&self, event: &Json) -> (r: Error)
        ensures
            r@ == stream_failure(self@.provider, event@),
    {
        let body = event.to_text();
        error_from_parsed(
            self.provider.as_str(),
            AFTER_THE_HEADERS,
            body.as_str(),
            Some(event.clone()),
            None,
            None,
        )
    }
}

/// An event that reports a failure gives that failure, and it is the provider's.
pub proof fn law_a_mid_stream_error_is_a_failure(stream: ChatChunkStreamView, event: JsonView)
    requires
        kind_of(event) == EventKind::Failure,
    ensures
        stepped(stream, event).0 matches Some(Err(error)) && crate::error::said(error) matches Some(
            detail,
        ) && detail.provider == stream.provider,
        stepped(stream, event).1 == stream,
{
}

/// Calling `next_from` until it gives nothing gives what all the items give, in
/// order.
pub proof fn law_next_items_are_walked(stream: ChatChunkStreamView, items: Seq<Item>)
    ensures
        walked(stream, items) == (match next_among(stream, items) {
            (Some(first), after, rest) => (
                seq![first] + walked(after, rest).0,
                walked(after, rest).1,
            ),
            (None, after, _) => (Seq::empty(), after),
        }),
    decreases items.len(),
{
    if items.len() > 0 {
        let (first, after) = taken(stream, items[0]);
        if first is None {
            law_next_items_are_walked(after, items.drop_first());
        }
    }
}

/// The stream gives nothing more only where the items have come to their end.
pub proof fn law_a_stream_ends_with_its_items(stream: ChatChunkStreamView, items: Seq<Item>)
    ensures
        next_among(stream, items).0 is None ==> next_among(stream, items).2.len() == 0,
    decreases items.len(),
{
    if items.len() > 0 {
        law_a_stream_ends_with_its_items(taken(stream, items[0]).1, items.drop_first());
    }
}

/// What is given for items in a row is what each gives, in order: an event gives
/// the chunk it is read as, if any; an event that reports a failure gives that
/// failure; a failure of the transport is given as it is.
pub proof fn law_items_are_given_in_order(
    stream: ChatChunkStreamView,
    before: Seq<Item>,
    item: Item,
)
    ensures
        ({
            let (given, between) = walked(stream, before);
            let (all, after) = walked(stream, before.push(item));
            match item {
                Err(error) => all == given.push(Err(error)) && after == between,
                Ok(event) => if kind_of(event) == EventKind::Failure {
                    all == given.push(Err(stream_failure(stream.provider, event))) && after
                        == between
                } else {
                    let (chunk, state) = ingested_event(event, between.state);
                    &&& after == ChatChunkStreamView { state, ..between }
                    &&& match chunk {
                        Some(chunk) => all == given.push(Ok(chunk)),
                        None => all == given,
                    }
                },
            }
        }),
    decreases before.len(),
{
    let whole = before.push(item);
    if before.len() == 0 {
        assert(whole.drop_first() =~= Seq::<Item>::empty());
        assert(walked(stream, before) == (Seq::<Given>::empty(), stream));
        let (first, after) = taken(stream, item);
        assert(walked(after, Seq::<Item>::empty()) == (Seq::<Given>::empty(), after));
        match first {
            Some(first) => {
                assert(seq![first] + Seq::<Given>::empty() =~= Seq::<Given>::empty().push(first));
            },
            None => {},
        }
    } else {
        let rest = before.drop_first();
        assert(whole.drop_first() =~= rest.push(item));
        let (first, after) = taken(stream, before[0]);
        assert(after.provider == stream.provider);
        law_items_are_given_in_order(after, rest, item);
        let (given, between) = walked(after, rest);
        let (all, last) = walked(after, rest.push(item));
        match first {
            Some(first) => {
                if all.len() > given.len() {
                    assert(seq![first] + all =~= (seq![first] + given).push(all.last()));
                }
            },
            None => {},
        }
    }
}

/// The tags of events differ.
proof fn lemma_tags()
    ensures
        "ping"@ != "content_block_stop"@,
        "ping"@ != "message_start"@,
        "ping"@ != "content_block_start"@,
        "ping"@ != "content_block_delta"@,
        "ping"@ != "message_delta"@,
        "ping"@ != "message_stop"@,
        "content_block_stop"@ != "message_start"@,
        "content_block_stop"@ != "content_block_start"@,
        "content_block_stop"@ != "content_block_delta"@,
        "content_block_stop"@ != "message_delta"@,
        "content_block_stop"@ != "message_stop"@,
        "message_start"@ != "content_block_start"@,
        "message_start"@ != "content_block_delta"@,
        "message_start"@ != "message_delta"@,
        "message_start"@ != "message_stop"@,
        "content_block_start"@ != "content_block_delta"@,
        "content_block_start"@ != "message_delta"@,
        "content_block_start"@ != "message_stop"@,
        "content_block_delta"@ != "message_delta"@,
        "content_block_delta"@ != "message_stop"@,
        "message_delta"@ != "message_stop"@,
{
    reveal_strlit("ping");
    reveal_strlit("content_block_stop");
    reveal_strlit("message_start");
    reveal_strlit("content_block_start");
    reveal_strlit("content_block_delta");
    reveal_strlit("message_delta");
    reveal_strlit("message_stop");
    assert("ping"@.len() != "content_block_stop"@.len());
    assert("ping"@.len() != "message_start"@.len());
    assert("ping"@.len() != "content_block_start"@.len());
    assert("ping"@.len() != "content_block_delta"@.len());
    assert("ping"@.len() != "message_delta"@.len());
    assert("ping"@.len() != "message_stop"@.len());
    assert("content_block_stop"@.len() != "message_start"@.len());
    assert("content_block_stop"@.len() != "content_block_start"@.len());
    assert("content_block_stop"@.len() != "content_block_delta"@.len());
    assert("content_block_stop"@.len() != "message_delta"@.len());
    assert("content_block_stop"@.len() != "message_stop"@.len());
    assert("message_start"@.len() != "content_block_start"@.len());
    assert("message_start"@.len() != "content_block_delta"@.len());
    assert("message_start"@[8] != "message_delta"@[8]);
    assert("message_start"@.len() != "message_stop"@.len());
    assert("content_block_start"@[14] != "content_block_delta"@[14]);
    assert("content_block_start"@.len() != "message_delta"@.len());
    assert("content_block_start"@.len() != "message_stop"@.len());
    assert("content_block_delta"@.len() != "message_delta"@.len());
    assert("content_block_delta"@.len() != "message_stop"@.len());
    assert("message_delta"@.len() != "message_stop"@.len());
}

/// A keepalive and the end of a block are skipped, and change nothing.
pub proof fn law_keepalives_and_block_ends_are_skipped(stream: ChatChunkStreamView, event: JsonView)
    requires
        event.str_at("type"@) == Some("ping"@) || event.str_at("type"@) == Some(
            "content_block_stop"@,
        ),
    ensures
        stepped(stream, event) == (None::<Given>, stream),
{
    lemma_tags();
    assert(kind_of(event) == EventKind::Silent);
}

/// The family of an overload differs from the others.
proof fn lemma_families()
    ensures
        "overloaded_error"@ != "invalid_request_error"@,
        "overloaded_error"@ != "authentication_error"@,
        "overloaded_error"@ != "billing_error"@,
        "overloaded_error"@ != "permission_error"@,
        "overloaded_error"@ != "not_found_error"@,
        "overloaded_error"@ != "request_too_large"@,
        "overloaded_error"@ != "rate_limit_error"@,
        "overloaded_error"@ != "api_error"@,
        "overloaded_error"@ != "timeout_error"@,
{
    reveal_strlit("overloaded_error");
    reveal_strlit("invalid_request_error");
    reveal_strlit("authentication_error");
    reveal_strlit("billing_error");
    reveal_strlit("permission_error");
    reveal_strlit("not_found_error");
    reveal_strlit("request_too_large");
    reveal_strlit("rate_limit_error");
    reveal_strlit("api_error");
    reveal_strlit("timeout_error");
    assert("overloaded_error"@.len() != "invalid_request_error"@.len());
    assert("overloaded_error"@.len() != "authentication_error"@.len());
    assert("overloaded_error"@.len() != "billing_error"@.len());
    assert("overloaded_error"@[0] != "permission_error"@[0]);
    assert("overloaded_error"@.len() != "not_found_error"@.len());
    assert("overloaded_error"@.len() != "request_too_large"@.len());
    assert("overloaded_error"@[0] != "rate_limit_error"@[0]);
    assert("overloaded_error"@.len() != "api_error"@.len());
    assert("overloaded_error"@.len() != "timeout_error"@.len());
}

/// An overload that is told within a stream is told as an overload.
pub proof fn law_an_overload_within_a_stream_is_told(stream: ChatChunkStreamView, event: JsonView)
    requires
        kind_of(event) == EventKind::Failure,
        event.str_in("error"@, "type"@) == Some("overloaded_error"@),
    ensures
        stepped(stream, event).0 matches Some(Err(ErrorView::Overloaded(_))),
{
    lemma_families();
}

} // verus!
