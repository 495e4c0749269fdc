//! How a conversation in chat completions is told to Anthropic: laws from the one
//! wire to the other.
use vstd::prelude::*;

use crate::error::ErrorView;
use crate::gateway::openai_compat;
use crate::gateway::openai_compat::request::{
    content_blocks, ingested_message, ingested_part, message_blocks, message_residue,
    request_residue,
};
use crate::gateway::types::message::{ContentBlockView, MessageView, Role};
use crate::gateway::types::raw_value;
use crate::gateway::types::request::ChatRequestView;
use crate::json::{group_find, no_fields, JsonView, NumberView};

use super::request::{
    any_is_or_holds, checked_block, checked_blocks, checked_messages, checked_up_to, flat,
    is_or_holds, joins_results, late_system, leading, lemma_results_run, message_has, refusal,
    rendered_conversation, rendered_system, rendered_turn, rendered_turns, request_has, results_run,
    such_block, turn_fields, turn_len,
};
use super::translation::{lemma_body, lemma_nothing_kept, translated};

verus! {

/// The messages that wire messages stand for.
pub open spec fn spoken(messages: Seq<JsonView>) -> Seq<MessageView> {
    messages.map_values(|message: JsonView| ingested_message(message))
}

/// Nothing is kept for a turn by any of the messages.
spec fn unmarked(messages: Seq<MessageView>, provider: Seq<char>) -> bool {
    forall|i: int|
        0 <= i < messages.len() ==> turn_fields(#[trigger] messages[i], provider) == no_fields()
}

proof fn lemma_unmarked(messages: Seq<JsonView>, provider: Seq<char>)
    ensures
        unmarked(spoken(messages), provider),
{
    assert forall|i: int| 0 <= i < spoken(messages).len() implies turn_fields(
        #[trigger] spoken(messages)[i],
        provider,
    ) == no_fields() by {
        lemma_nothing_kept(message_residue(messages[i].fields()), provider);
    }
}

proof fn lemma_joins(message: MessageView, provider: Seq<char>)
    requires
        turn_fields(message, provider) == no_fields(),
    ensures
        joins_results(message, provider) == (message.role == Role::Tool),
{
    broadcast use group_find;

}

proof fn lemma_run_push(messages: Seq<MessageView>, last: MessageView, provider: Seq<char>)
    requires
        unmarked(messages, provider),
        turn_fields(last, provider) == no_fields(),
        last.role != Role::Tool || results_run(messages, provider) < messages.len(),
    ensures
        results_run(messages.push(last), provider) == results_run(messages, provider),
    decreases messages.len(),
{
    lemma_joins(last, provider);
    let all = messages.push(last);
    if messages.len() > 0 {
        assert(all[0] == messages[0]);
        assert(all.drop_first() =~= messages.drop_first().push(last));
        if joins_results(messages[0], provider) {
            lemma_run_push(messages.drop_first(), last, provider);
        }
    } else {
        assert(all[0] == last);
    }
}

proof fn lemma_run_all(messages: Seq<MessageView>, last: MessageView, provider: Seq<char>)
    requires
        unmarked(messages, provider),
        turn_fields(last, provider) == no_fields(),
        last.role == Role::Tool,
        results_run(messages, provider) == messages.len(),
    ensures
        results_run(messages.push(last), provider) == messages.len() + 1,
    decreases messages.len(),
{
    lemma_joins(last, provider);
    let all = messages.push(last);
    if messages.len() > 0 {
        assert(all[0] == messages[0]);
        assert(all.drop_first() =~= messages.drop_first().push(last));
        lemma_run_all(messages.drop_first(), last, provider);
    } else {
        assert(all[0] == last);
        assert(all.drop_first() =~= Seq::<MessageView>::empty());
        assert(results_run(all.drop_first(), provider) == 0);
    }
}

proof fn lemma_run_short(messages: Seq<MessageView>, provider: Seq<char>)
    requires
        messages.len() > 0,
        unmarked(messages, provider),
        messages.last().role != Role::Tool,
    ensures
        results_run(messages, provider) < messages.len(),
    decreases messages.len(),
{
    lemma_joins(messages[0], provider);
    if messages.len() > 1 {
        assert(messages.drop_first().last() == messages.last());
        lemma_run_short(messages.drop_first(), provider);
    }
}

/// A message that does not go on with a run of results is a turn of its own.
proof fn lemma_turns_push(messages: Seq<MessageView>, last: MessageView, provider: Seq<char>)
    requires
        unmarked(messages, provider),
        turn_fields(last, provider) == no_fields(),
        messages.len() == 0 || last.role != Role::Tool || messages.last().role != Role::Tool,
    ensures
        rendered_turns(messages.push(last), provider) == (match rendered_turns(
            messages,
            provider,
        ) {
            Ok(turns) => match rendered_turn(seq![last], provider) {
                Ok(turn) => Ok(turns.push(turn)),
                Err(error) => Err(error),
            },
            Err(error) => Err(error),
        }),
    decreases messages.len(),
{
    let all = messages.push(last);
    lemma_joins(last, provider);
    lemma_results_run(messages, provider);
    lemma_results_run(all, provider);
    if messages.len() == 0 {
        assert(all =~= seq![last]);
        assert(all.drop_first() =~= Seq::<MessageView>::empty());
        assert(results_run(all.drop_first(), provider) == 0);
        assert(all.take(1) =~= seq![last]);
        assert(all.skip(1) =~= Seq::<MessageView>::empty());
        let none = Seq::<JsonView>::empty();
        assert(rendered_turns(all.skip(1), provider) == Ok::<Seq<JsonView>, ErrorView>(none));
        match rendered_turn(seq![last], provider) {
            Ok(turn) => {
                assert(seq![turn] + none =~= none.push(turn));
            },
            Err(_) => {},
        }
    } else {
        assert(all[0] == messages[0]);
        if last.role == Role::Tool {
            lemma_run_short(messages, provider);
        }
        lemma_run_push(messages, last, provider);
        let n = turn_len(messages, provider) as int;
        assert(turn_len(all, provider) == n);
        assert(all.take(n) =~= messages.take(n));
        assert(all.skip(n) =~= messages.skip(n).push(last));
        let rest = messages.skip(n);
        if rest.len() > 0 {
            assert(rest.last() == messages.last());
        }
        lemma_turns_push(rest, last, provider);
        if let (Ok(first), Ok(later), Ok(turn)) = (
            rendered_turn(messages.take(n), provider),
            rendered_turns(rest, provider),
            rendered_turn(seq![last], provider),
        ) {
            assert((seq![first] + later).push(turn) =~= seq![first] + later.push(turn));
        }
    }
}

/// A result that follows a result is told in the same turn.
#[verifier::rlimit(40)]
proof fn lemma_turns_join(
    messages: Seq<MessageView>,
    last: MessageView,
    provider: Seq<char>,
) -> (run: Seq<MessageView>)
    requires
        messages.len() > 0,
        unmarked(messages, provider),
        turn_fields(last, provider) == no_fields(),
        messages.last().role == Role::Tool,
        last.role == Role::Tool,
        rendered_turns(messages.push(last), provider) is Ok,
    ensures
        run.len() > 0,
        run[0].role == Role::Tool,
        turn_fields(run[0], provider) == no_fields(),
        rendered_turn(run, provider) is Ok,
        rendered_turn(run.push(last), provider) is Ok,
        rendered_turns(messages, provider) is Ok,
        ({
            let before = rendered_turns(messages, provider)->Ok_0;
            let after = rendered_turns(messages.push(last), provider)->Ok_0;
            &&& before.len() > 0
            &&& after.len() == before.len()
            &&& after.drop_last() == before.drop_last()
            &&& before.last() == rendered_turn(run, provider)->Ok_0
            &&& after.last() == rendered_turn(run.push(last), provider)->Ok_0
        }),
    decreases messages.len(),
{
    broadcast use group_find;

    let all = messages.push(last);
    assert(all[0] == messages[0]);
    lemma_results_run(messages, provider);
    lemma_results_run(all, provider);
    let n = turn_len(messages, provider) as int;
    if n == messages.len() {
        lemma_joins(messages[0], provider);
        assert(messages.len() == 1 ==> messages[0] == messages.last());
        assert(joins_results(messages[0], provider));
        lemma_run_all(messages, last, provider);
        assert(messages.take(n) =~= messages);
        assert(all.take(n + 1) =~= all);
        assert(messages.skip(n) =~= Seq::<MessageView>::empty());
        assert(all.skip(n + 1) =~= Seq::<MessageView>::empty());
        let none = Seq::<JsonView>::empty();
        assert(rendered_turns(messages.skip(n), provider) == Ok::<Seq<JsonView>, ErrorView>(none));
        assert(rendered_turns(all.skip(n + 1), provider) == Ok::<Seq<JsonView>, ErrorView>(none));
        assert(all.drop_last() =~= messages);
        let turn = rendered_turn(messages, provider)->Ok_0;
        let more = rendered_turn(all, provider)->Ok_0;
        assert(checked_messages(all) is Ok);
        assert(rendered_turn(messages, provider) is Ok);
        assert((seq![turn] + none).drop_last() =~= (seq![more] + none).drop_last());
        messages
    } else {
        lemma_run_push(messages, last, provider);
        assert(all.take(n) =~= messages.take(n));
        assert(all.skip(n) =~= messages.skip(n).push(last));
        let rest = messages.skip(n);
        assert(rest.last() == messages.last());
        let run = lemma_turns_join(rest, last, provider);
        let first = rendered_turn(messages.take(n), provider)->Ok_0;
        let before = rendered_turns(rest, provider)->Ok_0;
        let after = rendered_turns(rest.push(last), provider)->Ok_0;
        assert((seq![first] + before).drop_last() =~= seq![first] + before.drop_last());
        assert((seq![first] + after).drop_last() =~= seq![first] + after.drop_last());
        run
    }
}

proof fn lemma_leading_push(messages: Seq<MessageView>, last: MessageView)
    ensures
        leading(messages) <= messages.len(),
        last.role != Role::System || leading(messages) < messages.len() ==> leading(
            messages.push(last),
        ) == leading(messages),
        last.role == Role::System && leading(messages) == messages.len() ==> leading(
            messages.push(last),
        ) == messages.len() + 1,
    decreases messages.len(),
{
    let all = messages.push(last);
    if messages.len() > 0 {
        assert(all[0] == messages[0]);
        assert(all.drop_first() =~= messages.drop_first().push(last));
        lemma_leading_push(messages.drop_first(), last);
    } else {
        assert(all[0] == last);
        assert(all.drop_first() =~= Seq::<MessageView>::empty());
        assert(leading(all.drop_first()) == 0);
    }
}

proof fn lemma_leading(messages: Seq<MessageView>, n: nat)
    requires
        n <= messages.len(),
        forall|i: int| 0 <= i < n ==> (#[trigger] messages[i]).role == Role::System,
        n < messages.len() ==> messages[n as int].role != Role::System,
    ensures
        leading(messages) == n,
    decreases messages.len(),
{
    if n > 0 {
        let rest = messages.drop_first();
        assert forall|i: int| 0 <= i < n - 1 implies (#[trigger] rest[i]).role == Role::System by {
            assert(rest[i] == messages[i + 1]);
        }
        assert(messages[0].role == Role::System);
        lemma_leading(rest, (n - 1) as nat);
    }
}

/// The words for roles differ.
proof fn lemma_role_words()
    ensures
        "system"@ != "user"@,
        "system"@ != "assistant"@,
        "system"@ != "tool"@,
        "user"@ != "assistant"@,
        "user"@ != "tool"@,
        "assistant"@ != "tool"@,
{
    reveal_strlit("system");
    reveal_strlit("user");
    reveal_strlit("assistant");
    reveal_strlit("tool");
    assert("system"@.len() != "user"@.len());
    assert("system"@.len() != "assistant"@.len());
    assert("system"@.len() != "tool"@.len());
    assert("user"@.len() != "assistant"@.len());
    assert("user"@[0] != "tool"@[0]);
    assert("assistant"@.len() != "tool"@.len());
}

/// The names within a turn differ.
proof fn lemma_turn_keys()
    ensures
        "role"@ != "content"@,
{
    reveal_strlit("role");
    reveal_strlit("content");
    assert("role"@.len() != "content"@.len());
}

/// The text of the role of a wire message.
pub open spec fn speaks(message: JsonView, role: Seq<char>) -> bool {
    message.get("role"@) == Some(JsonView::String(role))
}

proof fn lemma_speaks(message: JsonView)
    ensures
        speaks(message, "tool"@) == (ingested_message(message).role == Role::Tool),
        speaks(message, "system"@) == (ingested_message(message).role == Role::System),
        speaks(message, "assistant"@) == (ingested_message(message).role == Role::Assistant),
{
    lemma_role_words();
}

/// The conversation within a rendered request.
proof fn lemma_said(
    request: JsonView,
    model: Seq<char>,
    provider: Seq<char>,
    ceiling: Option<u32>,
    messages: Seq<JsonView>,
)
    requires
        request.get("messages"@) == Some(JsonView::Array(messages)),
        translated(request, model, provider, ceiling) is Ok,
    ensures
        ({
            let body = translated(request, model, provider, ceiling)->Ok_0;
            let all = spoken(messages);
            let n = leading(all) as int;
            &&& !late_system(all)
            &&& n <= all.len()
            &&& !request_has(all, such_block(true))
            &&& rendered_turns(all.skip(n), provider) is Ok
            &&& rendered_system(all.take(n)) is Ok
            &&& body.get("messages"@) == Some(
                JsonView::Array(rendered_turns(all.skip(n), provider)->Ok_0),
            )
            &&& body.get("system"@) == rendered_system(all.take(n))->Ok_0
        }),
{
    let view = openai_compat::request::ingested_request(request, model);
    lemma_nothing_kept(request_residue(request.fields()), provider);
    lemma_body(view, provider, ceiling);
    assert(view.messages =~= spoken(messages));
    lemma_leading_push(spoken(messages), ingested_message(JsonView::Null));
}

/// The turns of a rendered request.
pub open spec fn turns_of(body: JsonView) -> Seq<JsonView> {
    match body.get("messages"@) {
        Some(JsonView::Array(turns)) => turns,
        _ => Seq::empty(),
    }
}

proof fn lemma_one_turn(message: MessageView, provider: Seq<char>)
    requires
        turn_fields(message, provider) == no_fields(),
        rendered_turn(seq![message], provider) is Ok,
    ensures
        checked_blocks(message.content) is Ok,
        ({
            let turn = rendered_turn(seq![message], provider)->Ok_0;
            let blocks = checked_blocks(message.content)->Ok_0;
            &&& turn.get("role"@) == Some(JsonView::String(super::role_word(message.role)))
            &&& turn.get("content"@) == Some(super::request::rendered_content(blocks))
            &&& turn.fields().len() == 2
        }),
{
    broadcast use group_find;

    lemma_turn_keys();
    assert(crate::json::without(
        crate::json::without(no_fields(), "role"@),
        "content"@,
    ) =~= no_fields());
    crate::json::lemma_index_of(no_fields(), "role"@, 0);
    let one = no_fields().push(("role"@, JsonView::String(super::role_word(message.role))));
    crate::json::lemma_index_of(one, "content"@, 1);
    let run = seq![message];
    assert(run.drop_last() =~= Seq::<MessageView>::empty());
    assert(run.last() == message);
    assert(checked_messages(run.drop_last()) == Ok::<Seq<JsonView>, ErrorView>(Seq::empty()));
    match checked_blocks(message.content) {
        Ok(blocks) => {
            assert(Seq::<JsonView>::empty() + blocks =~= blocks);
        },
        Err(_) => {},
    }
}

/// What a run of results is told as.
proof fn lemma_run_turn(run: Seq<MessageView>, provider: Seq<char>)
    requires
        run.len() > 0,
        turn_fields(run[0], provider) == no_fields(),
        rendered_turn(run, provider) is Ok,
    ensures
        checked_messages(run) is Ok,
        ({
            let turn = rendered_turn(run, provider)->Ok_0;
            &&& turn.get("role"@) == Some(JsonView::String(super::role_word(run[0].role)))
            &&& turn.get("content"@) == Some(
                super::request::rendered_content(checked_messages(run)->Ok_0),
            )
        }),
{
    broadcast use group_find;

    lemma_turn_keys();
}

/// A message of the user's or the assistant's is one more turn, after all the turns
/// before it and in the role it was said in; so is a tool's result that follows
/// no other.
pub proof fn law_a_message_is_a_turn(
    request: JsonView,
    later: JsonView,
    model: Seq<char>,
    provider: Seq<char>,
    ceiling: Option<u32>,
    messages: Seq<JsonView>,
    message: JsonView,
)
    requires
        request.get("messages"@) == Some(JsonView::Array(messages)),
        later.get("messages"@) == Some(JsonView::Array(messages.push(message))),
        translated(request, model, provider, ceiling) is Ok,
        translated(later, model, provider, ceiling) is Ok,
        !speaks(message, "system"@),
        !speaks(message, "tool"@) || messages.len() == 0 || !speaks(messages.last(), "tool"@),
    ensures
        ({
            let before = turns_of(translated(request, model, provider, ceiling)->Ok_0);
            let after = turns_of(translated(later, model, provider, ceiling)->Ok_0);
            &&& after.len() == before.len() + 1
            &&& after.drop_last() == before
            &&& after.last().fields().len() == 2
            &&& after.last().get("role"@) == Some(
                JsonView::String(
                    if speaks(message, "assistant"@) {
                        "assistant"@
                    } else {
                        "user"@
                    },
                ),
            )
        }),
{
    lemma_added(request, later, model, provider, ceiling, messages, message);
    lemma_speaks(message);
}

/// What a message adds to a conversation.
#[verifier::rlimit(40)]
proof fn lemma_added(
    request: JsonView,
    later: JsonView,
    model: Seq<char>,
    provider: Seq<char>,
    ceiling: Option<u32>,
    messages: Seq<JsonView>,
    message: JsonView,
)
    requires
        request.get("messages"@) == Some(JsonView::Array(messages)),
        later.get("messages"@) == Some(JsonView::Array(messages.push(message))),
        translated(request, model, provider, ceiling) is Ok,
        translated(later, model, provider, ceiling) is Ok,
        !speaks(message, "system"@),
        !speaks(message, "tool"@) || messages.len() == 0 || !speaks(messages.last(), "tool"@),
    ensures
        ({
            let before = turns_of(translated(request, model, provider, ceiling)->Ok_0);
            let after = turns_of(translated(later, model, provider, ceiling)->Ok_0);
            let said = ingested_message(message);
            let blocks = checked_blocks(message_blocks(message));
            &&& after.len() == before.len() + 1
            &&& after.drop_last() == before
            &&& blocks is Ok
            &&& after.last().get("role"@) == Some(JsonView::String(super::role_word(said.role)))
            &&& after.last().fields().len() == 2
            &&& after.last().get("content"@) == Some(
                super::request::rendered_content(blocks->Ok_0),
            )
            &&& forall|i: int|
                0 <= i < message_blocks(message).len() ==> !((#[trigger] message_blocks(
                    message,
                )[i]) is Audio)
        }),
{
    let all = messages.push(message);
    let said = ingested_message(message);
    lemma_said(request, model, provider, ceiling, messages);
    lemma_said(later, model, provider, ceiling, all);
    lemma_unmarked(messages, provider);
    lemma_unmarked(all, provider);
    assert(spoken(all) =~= spoken(messages).push(said));
    assert(spoken(all)[messages.len() as int] == said);
    lemma_leading_push(spoken(messages), said);
    lemma_speaks(message);
    let n = leading(spoken(messages)) as int;
    assert(spoken(all).skip(n) =~= spoken(messages).skip(n).push(said));
    let rest = spoken(messages).skip(n);
    if rest.len() > 0 {
        lemma_speaks(messages.last());
        assert(rest.last() == spoken(messages).last());
        assert(spoken(messages).last() == ingested_message(messages.last()));
    }
    assert(unmarked(rest, provider));
    lemma_turns_push(rest, said, provider);
    lemma_one_turn(said, provider);
    let turns = rendered_turns(rest, provider)->Ok_0;
    let turn = rendered_turn(seq![said], provider)->Ok_0;
    assert(turns.push(turn).drop_last() =~= turns);
    assert forall|i: int| 0 <= i < message_blocks(message).len() implies !((
    #[trigger] message_blocks(message)[i]) is Audio) by {
        if message_blocks(message)[i] is Audio {
            assert(is_or_holds(said.content[i], such_block(true)));
            assert(message_has(spoken(all)[messages.len() as int], such_block(true)));
        }
    }
}

/// Rendering blocks one by one.
proof fn lemma_each_block(blocks: Seq<ContentBlockView>, n: nat)
    requires
        n <= blocks.len(),
        checked_up_to(blocks, n) is Ok,
        forall|i: int|
            0 <= i < n ==> checked_block(#[trigger] blocks[i]) != Ok::<
                Option<JsonView>,
                ErrorView,
            >(None),
    ensures
        checked_up_to(blocks, n)->Ok_0.len() == n,
        forall|i: int|
            0 <= i < n ==> checked_block(#[trigger] blocks[i]) == Ok::<Option<JsonView>, ErrorView>(
                Some(checked_up_to(blocks, n)->Ok_0[i]),
            ),
    decreases n,
{
    if n > 0 {
        lemma_each_block(blocks, (n - 1) as nat);
    }
}

/// The names within a block differ.
proof fn lemma_block_keys()
    ensures
        "type"@ != "text"@,
        "type"@ != "cache_control"@,
        "type"@ != "source"@,
        "type"@ != "id"@,
        "type"@ != "name"@,
        "type"@ != "input"@,
        "type"@ != "tool_use_id"@,
        "type"@ != "content"@,
        "type"@ != "is_error"@,
        "type"@ != "media_type"@,
        "type"@ != "data"@,
        "type"@ != "url"@,
        "text"@ != "cache_control"@,
        "text"@ != "source"@,
        "text"@ != "id"@,
        "text"@ != "name"@,
        "text"@ != "input"@,
        "text"@ != "tool_use_id"@,
        "text"@ != "content"@,
        "text"@ != "is_error"@,
        "text"@ != "media_type"@,
        "text"@ != "data"@,
        "text"@ != "url"@,
        "cache_control"@ != "source"@,
        "cache_control"@ != "id"@,
        "cache_control"@ != "name"@,
        "cache_control"@ != "input"@,
        "cache_control"@ != "tool_use_id"@,
        "cache_control"@ != "content"@,
        "cache_control"@ != "is_error"@,
        "cache_control"@ != "media_type"@,
        "cache_control"@ != "data"@,
        "cache_control"@ != "url"@,
        "source"@ != "id"@,
        "source"@ != "name"@,
        "source"@ != "input"@,
        "source"@ != "tool_use_id"@,
        "source"@ != "content"@,
        "source"@ != "is_error"@,
        "source"@ != "media_type"@,
        "source"@ != "data"@,
        "source"@ != "url"@,
        "id"@ != "name"@,
        "id"@ != "input"@,
        "id"@ != "tool_use_id"@,
        "id"@ != "content"@,
        "id"@ != "is_error"@,
        "id"@ != "media_type"@,
        "id"@ != "data"@,
        "id"@ != "url"@,
        "name"@ != "input"@,
        "name"@ != "tool_use_id"@,
        "name"@ != "content"@,
        "name"@ != "is_error"@,
        "name"@ != "media_type"@,
        "name"@ != "data"@,
        "name"@ != "url"@,
        "input"@ != "tool_use_id"@,
        "input"@ != "content"@,
        "input"@ != "is_error"@,
        "input"@ != "media_type"@,
        "input"@ != "data"@,
        "input"@ != "url"@,
        "tool_use_id"@ != "content"@,
        "tool_use_id"@ != "is_error"@,
        "tool_use_id"@ != "media_type"@,
        "tool_use_id"@ != "data"@,
        "tool_use_id"@ != "url"@,
        "content"@ != "is_error"@,
        "content"@ != "media_type"@,
        "content"@ != "data"@,
        "content"@ != "url"@,
        "is_error"@ != "media_type"@,
        "is_error"@ != "data"@,
        "is_error"@ != "url"@,
        "media_type"@ != "data"@,
        "media_type"@ != "url"@,
        "data"@ != "url"@,
{
    reveal_strlit("type");
    reveal_strlit("text");
    reveal_strlit("cache_control");
    reveal_strlit("source");
    reveal_strlit("id");
    reveal_strlit("name");
    reveal_strlit("input");
    reveal_strlit("tool_use_id");
    reveal_strlit("content");
    reveal_strlit("is_error");
    reveal_strlit("media_type");
    reveal_strlit("data");
    reveal_strlit("url");
    assert("type"@[1] != "text"@[1]);
    assert("type"@.len() != "cache_control"@.len());
    assert("type"@.len() != "source"@.len());
    assert("type"@.len() != "id"@.len());
    assert("type"@[0] != "name"@[0]);
    assert("type"@.len() != "input"@.len());
    assert("type"@.len() != "tool_use_id"@.len());
    assert("type"@.len() != "content"@.len());
    assert("type"@.len() != "is_error"@.len());
    assert("type"@.len() != "media_type"@.len());
    assert("type"@[0] != "data"@[0]);
    assert("type"@.len() != "url"@.len());
    assert("text"@.len() != "cache_control"@.len());
    assert("text"@.len() != "source"@.len());
    assert("text"@.len() != "id"@.len());
    assert("text"@[0] != "name"@[0]);
    assert("text"@.len() != "input"@.len());
    assert("text"@.len() != "tool_use_id"@.len());
    assert("text"@.len() != "content"@.len());
    assert("text"@.len() != "is_error"@.len());
    assert("text"@.len() != "media_type"@.len());
    assert("text"@[0] != "data"@[0]);
    assert("text"@.len() != "url"@.len());
    assert("cache_control"@.len() != "source"@.len());
    assert("cache_control"@.len() != "id"@.len());
    assert("cache_control"@.len() != "name"@.len());
    assert("cache_control"@.len() != "input"@.len());
    assert("cache_control"@.len() != "tool_use_id"@.len());
    assert("cache_control"@.len() != "content"@.len());
    assert("cache_control"@.len() != "is_error"@.len());
    assert("cache_control"@.len() != "media_type"@.len());
    assert("cache_control"@.len() != "data"@.len());
    assert("cache_control"@.len() != "url"@.len());
    assert("source"@.len() != "id"@.len());
    assert("source"@.len() != "name"@.len());
    assert("source"@.len() != "input"@.len());
    assert("source"@.len() != "tool_use_id"@.len());
    assert("source"@.len() != "content"@.len());
    assert("source"@.len() != "is_error"@.len());
    assert("source"@.len() != "media_type"@.len());
    assert("source"@.len() != "data"@.len());
    assert("source"@.len() != "url"@.len());
    assert("id"@.len() != "name"@.len());
    assert("id"@.len() != "input"@.len());
    assert("id"@.len() != "tool_use_id"@.len());
    assert("id"@.len() != "content"@.len());
    assert("id"@.len() != "is_error"@.len());
    assert("id"@.len() != "media_type"@.len());
    assert("id"@.len() != "data"@.len());
    assert("id"@.len() != "url"@.len());
    assert("name"@.len() != "input"@.len());
    assert("name"@.len() != "tool_use_id"@.len());
    assert("name"@.len() != "content"@.len());
    assert("name"@.len() != "is_error"@.len());
    assert("name"@.len() != "media_type"@.len());
    assert("name"@[0] != "data"@[0]);
    assert("name"@.len() != "url"@.len());
    assert("input"@.len() != "tool_use_id"@.len());
    assert("input"@.len() != "content"@.len());
    assert("input"@.len() != "is_error"@.len());
    assert("input"@.len() != "media_type"@.len());
    assert("input"@.len() != "data"@.len());
    assert("input"@.len() != "url"@.len());
    assert("tool_use_id"@.len() != "content"@.len());
    assert("tool_use_id"@.len() != "is_error"@.len());
    assert("tool_use_id"@.len() != "media_type"@.len());
    assert("tool_use_id"@.len() != "data"@.len());
    assert("tool_use_id"@.len() != "url"@.len());
    assert("content"@.len() != "is_error"@.len());
    assert("content"@.len() != "media_type"@.len());
    assert("content"@.len() != "data"@.len());
    assert("content"@.len() != "url"@.len());
    assert("is_error"@.len() != "media_type"@.len());
    assert("is_error"@.len() != "data"@.len());
    assert("is_error"@.len() != "url"@.len());
    assert("media_type"@.len() != "data"@.len());
    assert("media_type"@.len() != "url"@.len());
    assert("data"@.len() != "url"@.len());
}

/// The tags of blocks differ.
proof fn lemma_block_words()
    ensures
        "text"@ != "image"@,
        "text"@ != "tool_use"@,
        "text"@ != "tool_result"@,
        "text"@ != "document"@,
        "image"@ != "tool_use"@,
        "image"@ != "tool_result"@,
        "image"@ != "document"@,
        "tool_use"@ != "tool_result"@,
        "tool_use"@ != "document"@,
        "tool_result"@ != "document"@,
{
    reveal_strlit("text");
    reveal_strlit("image");
    reveal_strlit("tool_use");
    reveal_strlit("tool_result");
    reveal_strlit("document");
    assert("text"@.len() != "image"@.len());
    assert("text"@.len() != "tool_use"@.len());
    assert("text"@.len() != "tool_result"@.len());
    assert("text"@.len() != "document"@.len());
    assert("image"@.len() != "tool_use"@.len());
    assert("image"@.len() != "tool_result"@.len());
    assert("image"@.len() != "document"@.len());
    assert("tool_use"@.len() != "tool_result"@.len());
    assert("tool_use"@[0] != "document"@[0]);
    assert("tool_result"@.len() != "document"@.len());
}

/// The tags of parts differ.
proof fn lemma_part_words()
    ensures
        "text"@ != "image_url"@,
        "text"@ != "input_audio"@,
        "text"@ != "file"@,
        "image_url"@ != "input_audio"@,
        "image_url"@ != "file"@,
        "input_audio"@ != "file"@,
{
    reveal_strlit("text");
    reveal_strlit("image_url");
    reveal_strlit("input_audio");
    reveal_strlit("file");
    assert("text"@.len() != "image_url"@.len());
    assert("text"@.len() != "input_audio"@.len());
    assert("text"@[0] != "file"@[0]);
    assert("image_url"@.len() != "input_audio"@.len());
    assert("image_url"@.len() != "file"@.len());
    assert("input_audio"@.len() != "file"@.len());
}

/// One block of bare text is that text.
proof fn lemma_bare_text(text: Seq<char>)
    ensures
        ({
            let blocks = checked_blocks(seq![ContentBlockView::Text { text, cache: None }]);
            &&& blocks is Ok
            &&& super::request::rendered_content(blocks->Ok_0) == JsonView::String(text)
        }),
{
    broadcast use group_find;

    lemma_block_keys();
    let block = ContentBlockView::Text { text, cache: None };
    assert(seq![block][0] == block);
    assert(checked_up_to(seq![block], 0) == Ok::<Seq<JsonView>, ErrorView>(Seq::empty()));
    assert(checked_blocks(seq![block]) == checked_up_to(seq![block], 1));
    let fields = crate::json::fields2(
        "type"@,
        JsonView::String("text"@),
        "text"@,
        JsonView::String(text),
    );
    crate::json::lemma_without_absent(fields, "cache_control"@);
    assert(checked_block(block) == Ok::<Option<JsonView>, ErrorView>(
        Some(JsonView::Object(fields)),
    ));
    assert(checked_blocks(seq![block])->Ok_0 =~= seq![JsonView::Object(fields)]);
}

/// A block of text without a hint holds its kind and its text, and nothing else.
proof fn lemma_exact_text(text: Seq<char>)
    ensures
        super::response::text_block(text, None).fields().len() == 2,
{
    broadcast use group_find;

    lemma_block_keys();
    let fields = crate::json::fields2(
        "type"@,
        JsonView::String("text"@),
        "text"@,
        JsonView::String(text),
    );
    crate::json::lemma_without_absent(fields, "cache_control"@);
}

proof fn lemma_exact_image(source: JsonView)
    ensures
        super::response::image_block(source, None).fields().len() == 2,
{
    broadcast use group_find;

    lemma_block_keys();
    let fields = crate::json::fields2("type"@, JsonView::String("image"@), "source"@, source);
    crate::json::lemma_without_absent(fields, "cache_control"@);
}

proof fn lemma_exact_result(call_id: Seq<char>, content: JsonView)
    ensures
        super::response::tool_result_block(call_id, content, false).fields().len() == 3,
{
    broadcast use group_find;

    lemma_block_keys();
    let fields = crate::json::fields3(
        "type"@,
        JsonView::String("tool_result"@),
        "tool_use_id"@,
        JsonView::String(call_id),
        "content"@,
        content,
    );
    crate::json::lemma_without_absent(fields, "is_error"@);
}

proof fn lemma_exact_use(id: Seq<char>, name: Seq<char>, input: JsonView)
    ensures
        super::response::tool_use_block(id, name, input).fields().len() == 4,
{
    lemma_block_keys();
    let fields = crate::json::fields3(
        "type"@,
        JsonView::String("tool_use"@),
        "id"@,
        JsonView::String(id),
        "name"@,
        JsonView::String(name),
    );
    crate::json::lemma_index_of(fields, "input"@, 3);
}

/// What a part is told as.
spec fn told_part(part: JsonView, block: JsonView, said: Seq<char>) -> bool {
    let tag = part.get("type"@);
    let image = part.get("image_url"@);
    &&& tag == Some(JsonView::String("text"@)) && part.get("text"@) == Some(
        JsonView::String(said),
    ) ==> block.get("type"@) == Some(JsonView::String("text"@)) && block.get("text"@) == Some(
        JsonView::String(said),
    ) && block.fields().len() == 2
    &&& tag == Some(JsonView::String("image_url"@)) && image is Some && image->0.get("url"@)
        == Some(JsonView::String(said)) ==> {
        let source = block.get("source"@);
        &&& block.get("type"@) == Some(JsonView::String("image"@))
        &&& block.fields().len() == 2
        &&& source is Some
        &&& (said.len() < 5 || said.take(5) != "data:"@) ==> source->0.get("type"@) == Some(
            JsonView::String("url"@),
        ) && source->0.get("url"@) == Some(JsonView::String(said))
        &&& source->0.get("type"@) == Some(JsonView::String("url"@)) ==> source->0.get("url"@)
            == Some(JsonView::String(said))
        &&& source->0.get("type"@) != Some(JsonView::String("url"@)) ==> source->0.get("type"@)
            == Some(JsonView::String("base64"@)) && (source->0.get("media_type"@) matches Some(
            JsonView::String(media_type),
        ) && source->0.get("data"@) matches Some(JsonView::String(data)) && said == "data:"@
            + media_type + ";base64,"@ + data)
    }
}

#[verifier::rlimit(40)]
proof fn lemma_told_part(part: JsonView, block: JsonView, said: Seq<char>)
    requires
        checked_block(ingested_part(part)) == Ok::<Option<JsonView>, ErrorView>(Some(block)),
    ensures
        told_part(part, block, said),
{
    broadcast use group_find;

    lemma_block_keys();
    lemma_block_words();
    lemma_part_words();
    match ingested_part(part) {
        ContentBlockView::Text { text, .. } => lemma_exact_text(text),
        ContentBlockView::Image { source, .. } => lemma_exact_image(
            super::response::rendered_source(source),
        ),
        _ => {},
    }
    reveal_strlit("data:");
    reveal_strlit("url");
    reveal_strlit("base64");
    assert("url"@.len() != "base64"@.len());
    match crate::text::stripped(said, "data:"@) {
        Some(rest) => {
            crate::text::lemma_halves(rest, ";base64,"@);
            assert(said =~= "data:"@ + rest);
            match crate::text::halves(rest, ";base64,"@) {
                Some((media_type, data)) => {
                    assert("data:"@ + rest =~= "data:"@ + media_type + ";base64,"@ + data);
                },
                None => {},
            }
        },
        None => {},
    }
}

proof fn lemma_told_text(text: Seq<char>, block: JsonView)
    requires
        checked_block(ContentBlockView::Text { text, cache: None }) == Ok::<
            Option<JsonView>,
            ErrorView,
        >(Some(block)),
    ensures
        block.get("type"@) == Some(JsonView::String("text"@)),
        block.get("text"@) == Some(JsonView::String(text)),
        block.fields().len() == 2,
{
    broadcast use group_find;

    lemma_block_keys();
    lemma_exact_text(text);
}

proof fn lemma_told_call(call: JsonView, block: JsonView)
    requires
        openai_compat::wire::function_call_shape(call),
        checked_block(openai_compat::request::ingested_call(call)) == Ok::<
            Option<JsonView>,
            ErrorView,
        >(Some(block)),
    ensures
        block.get("type"@) == Some(JsonView::String("tool_use"@)),
        block.get("id"@) == call.get("id"@),
        block.get("name"@) == call.get("function"@)->0.get("name"@),
        block.get("input"@) is Some,
        block.get("input"@)->0 is Object,
        block.get("input"@) == raw_value(call.get("function"@)->0.get("arguments"@)->0->String_0),
        block.fields().len() == 4,
{
    broadcast use group_find;

    lemma_block_keys();
    lemma_exact_use(
        call.str_at("id"@)->0,
        call.str_in("function"@, "name"@)->0,
        block.get("input"@)->0,
    );
}

/// A result of bare text.
proof fn lemma_told_result(call_id: Seq<char>, text: Seq<char>)
    ensures
        ({
            let words = ContentBlockView::Text { text, cache: None };
            let block = ContentBlockView::ToolResult {
                call_id,
                content: seq![words],
                is_error: false,
            };
            let wire = super::response::tool_result_block(call_id, JsonView::String(text), false);
            &&& checked_blocks(seq![block]) == Ok::<Seq<JsonView>, ErrorView>(seq![wire])
            &&& wire.str_at("type"@) != Some("text"@)
            &&& wire.get("type"@) == Some(JsonView::String("tool_result"@))
            &&& wire.get("tool_use_id"@) == Some(JsonView::String(call_id))
            &&& wire.get("content"@) == Some(JsonView::String(text))
            &&& wire.get("is_error"@) is None
            &&& wire.fields().len() == 3
        }),
{
    broadcast use group_find;

    lemma_block_keys();
    lemma_block_words();
    let words = ContentBlockView::Text { text, cache: None };
    let block = ContentBlockView::ToolResult { call_id, content: seq![words], is_error: false };
    let wire = super::response::tool_result_block(call_id, JsonView::String(text), false);
    lemma_exact_result(call_id, JsonView::String(text));
    assert(seq![words][0] == words);
    assert(seq![block][0] == block);
    assert(checked_block(block) == Ok::<Option<JsonView>, ErrorView>(Some(wire)));
    assert(checked_up_to(seq![block], 0) == Ok::<Seq<JsonView>, ErrorView>(Seq::empty()));
    assert(checked_blocks(seq![block]) == checked_up_to(seq![block], 1));
    assert(checked_blocks(seq![block])->Ok_0 =~= seq![wire]);
}

/// A message of bare text is a turn of that very text.
#[verifier::rlimit(40)]
pub proof fn law_a_text_is_told_as_it_is(
    request: JsonView,
    later: JsonView,
    model: Seq<char>,
    provider: Seq<char>,
    ceiling: Option<u32>,
    messages: Seq<JsonView>,
    message: JsonView,
    text: Seq<char>,
)
    requires
        request.get("messages"@) == Some(JsonView::Array(messages)),
        later.get("messages"@) == Some(JsonView::Array(messages.push(message))),
        translated(request, model, provider, ceiling) is Ok,
        translated(later, model, provider, ceiling) is Ok,
        speaks(message, "user"@) || speaks(message, "assistant"@),
        message.get("content"@) == Some(JsonView::String(text)),
        message.get("tool_calls"@) is None,
        message.get("tool_call_id"@) is None,
    ensures
        turns_of(translated(later, model, provider, ceiling)->Ok_0) == turns_of(
            translated(request, model, provider, ceiling)->Ok_0,
        ).push(turns_of(translated(later, model, provider, ceiling)->Ok_0).last()),
        turns_of(translated(later, model, provider, ceiling)->Ok_0).last().get("content"@) == Some(
            JsonView::String(text),
        ),
{
    lemma_role_words();
    lemma_added(request, later, model, provider, ceiling, messages, message);
    assert(message_blocks(message) =~= seq![ContentBlockView::Text { text, cache: None }]);
    lemma_bare_text(text);
    let before = turns_of(translated(request, model, provider, ceiling)->Ok_0);
    let after = turns_of(translated(later, model, provider, ceiling)->Ok_0);
    assert(after =~= before.push(after.last()));
}

/// The parts of a message are its blocks, one for each and in order: a text is
/// that text; an image that is linked is linked; an image in a data URL is its
/// bytes, with their type.
#[verifier::rlimit(40)]
pub proof fn law_parts_are_told_in_order(
    request: JsonView,
    later: JsonView,
    model: Seq<char>,
    provider: Seq<char>,
    ceiling: Option<u32>,
    messages: Seq<JsonView>,
    message: JsonView,
    parts: Seq<JsonView>,
    i: int,
    said: Seq<char>,
)
    requires
        request.get("messages"@) == Some(JsonView::Array(messages)),
        later.get("messages"@) == Some(JsonView::Array(messages.push(message))),
        translated(request, model, provider, ceiling) is Ok,
        translated(later, model, provider, ceiling) is Ok,
        speaks(message, "user"@) || speaks(message, "assistant"@),
        message.get("content"@) == Some(JsonView::Array(parts)),
        message.get("tool_calls"@) is None || message.get("tool_calls"@)->0 is Array,
        message.get("tool_call_id"@) is None,
        parts.len() > 1,
        0 <= i < parts.len(),
    ensures
        ({
            let content = turns_of(translated(later, model, provider, ceiling)->Ok_0).last().get(
                "content"@,
            );
            let block = content->0->Array_0[i];
            let tag = parts[i].get("type"@);
            let image = parts[i].get("image_url"@);
            &&& content is Some
            &&& content->0 is Array
            &&& content->0->Array_0.len() == parts.len() + message.items_at("tool_calls"@).len()
            &&& tag == Some(JsonView::String("text"@)) && parts[i].get("text"@) == Some(
                JsonView::String(said),
            ) ==> block.get("type"@) == Some(JsonView::String("text"@)) && block.get("text"@)
                == Some(JsonView::String(said)) && block.fields().len() == 2
            &&& tag == Some(JsonView::String("image_url"@)) && image is Some && image->0.get(
                "url"@,
            ) == Some(JsonView::String(said)) ==> {
                let source = block.get("source"@);
                &&& block.get("type"@) == Some(JsonView::String("image"@))
                &&& block.fields().len() == 2
                &&& source is Some
                &&& (said.len() < 5 || said.take(5) != "data:"@) ==> source->0.get("type"@) == Some(
                    JsonView::String("url"@),
                ) && source->0.get("url"@) == Some(JsonView::String(said))
                &&& source->0.get("type"@) == Some(JsonView::String("url"@)) ==> source->0.get(
                    "url"@,
                ) == Some(JsonView::String(said))
                &&& source->0.get("type"@) != Some(JsonView::String("url"@)) ==> source->0.get(
                    "type"@,
                ) == Some(JsonView::String("base64"@)) && (source->0.get("media_type"@) matches Some(
                    JsonView::String(media_type),
                ) && source->0.get("data"@) matches Some(JsonView::String(data)) && said == "data:"@
                    + media_type + ";base64,"@ + data)
            }
        }),
{
    lemma_role_words();
    lemma_added(request, later, model, provider, ceiling, messages, message);
    let said_parts = parts.map_values(|part: JsonView| ingested_part(part));
    let made = message.items_at("tool_calls"@).map_values(
        |call: JsonView| openai_compat::request::ingested_call(call),
    );
    let blocks = said_parts + made;
    assert(message_blocks(message) =~= blocks);
    assert forall|k: int| 0 <= k < blocks.len() implies checked_block(#[trigger] blocks[k]) != Ok::<
        Option<JsonView>,
        ErrorView,
    >(None) by {
        assert(!(message_blocks(message)[k] is Audio));
        if k >= said_parts.len() {
            assert(blocks[k] == made[k - said_parts.len()]);
        }
    }
    lemma_each_block(blocks, blocks.len());
    let out = checked_blocks(blocks)->Ok_0;
    assert(checked_block(blocks[i]) == Ok::<Option<JsonView>, ErrorView>(Some(out[i])));
    assert(blocks[i] == said_parts[i]);
    lemma_told_part(parts[i], out[i], said);
}

/// The calls of a message follow what it says, one for each and in order: each is
/// a use of the tool of that name, under that id, with the arguments that its
/// text holds.
#[verifier::rlimit(40)]
pub proof fn law_calls_are_told_in_order(
    request: JsonView,
    later: JsonView,
    model: Seq<char>,
    provider: Seq<char>,
    ceiling: Option<u32>,
    messages: Seq<JsonView>,
    message: JsonView,
    calls: Seq<JsonView>,
    i: int,
    id: Seq<char>,
    name: Seq<char>,
    arguments: Seq<char>,
)
    requires
        request.get("messages"@) == Some(JsonView::Array(messages)),
        later.get("messages"@) == Some(JsonView::Array(messages.push(message))),
        translated(request, model, provider, ceiling) is Ok,
        translated(later, model, provider, ceiling) is Ok,
        speaks(message, "assistant"@),
        message.get("tool_calls"@) == Some(JsonView::Array(calls)),
        message.get("tool_call_id"@) is None,
        0 <= i < calls.len(),
        calls[i] is Object,
        calls[i].get("id"@) == Some(JsonView::String(id)),
        calls[i].get("type"@) == Some(JsonView::String("function"@)),
        calls[i].get("function"@) is Some,
        calls[i].get("function"@)->0.get("name"@) == Some(JsonView::String(name)),
        calls[i].get("function"@)->0.get("arguments"@) == Some(JsonView::String(arguments)),
        message.get("content"@) is None || message.get("content"@)->0 is Null || message.get(
            "content"@,
        )->0 is String || message.get("content"@)->0 is Array,
    ensures
        ({
            let content = turns_of(translated(later, model, provider, ceiling)->Ok_0).last().get(
                "content"@,
            );
            let out = content->0->Array_0;
            let before: int = match message.get("content"@) {
                Some(JsonView::String(_)) => 1,
                Some(JsonView::Array(parts)) => parts.len() as int,
                _ => 0,
            };
            let block = out[before + i];
            &&& content is Some
            &&& content->0 is Array
            &&& out.len() == before + calls.len()
            &&& message.get("content"@) matches Some(JsonView::String(text)) ==> out[0].get(
                "type"@,
            ) == Some(JsonView::String("text"@)) && out[0].get("text"@) == Some(
                JsonView::String(text),
            )
            &&& block.get("type"@) == Some(JsonView::String("tool_use"@))
            &&& block.get("id"@) == Some(JsonView::String(id))
            &&& block.get("name"@) == Some(JsonView::String(name))
            &&& block.get("input"@) is Some
            &&& block.get("input"@)->0 is Object
            &&& block.get("input"@) == raw_value(arguments)
            &&& block.fields().len() == 4
        }),
{
    lemma_role_words();
    lemma_added(request, later, model, provider, ceiling, messages, message);
    let said = content_blocks(message);
    let made = calls.map_values(|call: JsonView| openai_compat::request::ingested_call(call));
    let blocks = said + made;
    assert(message_blocks(message) =~= blocks);
    assert forall|k: int| 0 <= k < blocks.len() implies checked_block(#[trigger] blocks[k]) != Ok::<
        Option<JsonView>,
        ErrorView,
    >(None) by {
        assert(!(message_blocks(message)[k] is Audio));
        if k >= said.len() {
            assert(blocks[k] == made[k - said.len()]);
        }
    }
    lemma_each_block(blocks, blocks.len());
    let out = checked_blocks(blocks)->Ok_0;
    assert(blocks[said.len() + i] == made[i]);
    lemma_told_call(calls[i], out[said.len() + i]);
    if message.get("content"@) matches Some(JsonView::String(_)) {
        assert(blocks[0] == said[0]);
        lemma_told_text(said[0]->Text_text, out[0]);
    }
    if out.len() == 1 {
        lemma_block_words();
        assert(super::request::bare_text(out) is None);
    }
}

/// A tool's result is told as the user's, under the id of the call it answers; one
/// that follows another is told in the same turn, after it.
#[verifier::rlimit(40)]
pub proof fn law_results_are_told_together(
    request: JsonView,
    later: JsonView,
    model: Seq<char>,
    provider: Seq<char>,
    ceiling: Option<u32>,
    messages: Seq<JsonView>,
    message: JsonView,
    call_id: Seq<char>,
    text: Seq<char>,
)
    requires
        request.get("messages"@) == Some(JsonView::Array(messages)),
        later.get("messages"@) == Some(JsonView::Array(messages.push(message))),
        translated(request, model, provider, ceiling) is Ok,
        translated(later, model, provider, ceiling) is Ok,
        speaks(message, "tool"@),
        message.get("content"@) == Some(JsonView::String(text)),
        message.get("tool_calls"@) is None,
        message.get("tool_call_id"@) == Some(JsonView::String(call_id)),
    ensures
        ({
            let before = turns_of(translated(request, model, provider, ceiling)->Ok_0);
            let after = turns_of(translated(later, model, provider, ceiling)->Ok_0);
            let content = after.last().get("content"@);
            let block = content->0->Array_0.last();
            let joins = messages.len() > 0 && speaks(messages.last(), "tool"@);
            &&& after.len() > 0
            &&& after.last().get("role"@) == Some(JsonView::String("user"@))
            &&& content is Some
            &&& content->0 is Array
            &&& content->0->Array_0.len() > 0
            &&& block.get("type"@) == Some(JsonView::String("tool_result"@))
            &&& block.get("tool_use_id"@) == Some(JsonView::String(call_id))
            &&& block.get("content"@) == Some(JsonView::String(text))
            &&& block.get("is_error"@) is None
            &&& block.fields().len() == 3
            &&& !joins ==> after.drop_last() == before && after.len() == before.len() + 1
                && content->0->Array_0.len() == 1
            &&& joins ==> before.len() > 0 && after.len() == before.len() && after.drop_last()
                == before.drop_last()
            &&& joins && (before.last().get("content"@) matches Some(JsonView::Array(_)))
                ==> content->0->Array_0.drop_last() == before.last().get("content"@)->0->Array_0
        }),
{
    lemma_role_words();
    let words = ContentBlockView::Text { text, cache: None };
    let block = ContentBlockView::ToolResult { call_id, content: seq![words], is_error: false };
    let wire = super::response::tool_result_block(call_id, JsonView::String(text), false);
    let said = ingested_message(message);
    assert(content_blocks(message) =~= seq![words]);
    assert(message_blocks(message) =~= seq![block]);
    assert(said.content == seq![block]);
    lemma_told_result(call_id, text);
    assert(seq![wire].last() == wire);
    let joins = messages.len() > 0 && speaks(messages.last(), "tool"@);
    if !joins {
        lemma_added(request, later, model, provider, ceiling, messages, message);
    } else {
        let all = messages.push(message);
        lemma_said(request, model, provider, ceiling, messages);
        lemma_said(later, model, provider, ceiling, all);
        lemma_unmarked(messages, provider);
        lemma_unmarked(all, provider);
        assert(spoken(all) =~= spoken(messages).push(said));
        assert(spoken(all)[messages.len() as int] == said);
        lemma_leading_push(spoken(messages), said);
        lemma_speaks(message);
        lemma_speaks(messages.last());
        let n = leading(spoken(messages)) as int;
        assert(spoken(all).skip(n) =~= spoken(messages).skip(n).push(said));
        let rest = spoken(messages).skip(n);
        assert(spoken(messages).last() == ingested_message(messages.last()));
        lemma_last_leading(spoken(messages));
        assert(rest.last() == spoken(messages).last());
        assert(unmarked(rest, provider));
        let run = lemma_turns_join(rest, said, provider);
        let more = run.push(said);
        assert(more.drop_last() =~= run);
        assert(more.last() == said);
        assert(more[0] == run[0]);
        lemma_run_turn(run, provider);
        lemma_run_turn(more, provider);
        let first = checked_messages(run)->Ok_0;
        assert(checked_messages(more) == Ok::<Seq<JsonView>, ErrorView>(first + seq![wire]));
        let blocks = first + seq![wire];
        assert(blocks.last() == wire);
        assert(blocks.drop_last() =~= first);
        assert(blocks.len() == 1 ==> blocks[0] == wire);
    }
}

proof fn lemma_last_leading(messages: Seq<MessageView>)
    requires
        messages.len() > 0,
        messages.last().role != Role::System,
    ensures
        leading(messages) < messages.len(),
    decreases messages.len(),
{
    if messages.len() > 1 {
        assert(messages.drop_first().last() == messages.last());
        lemma_last_leading(messages.drop_first());
    }
}

/// Where no message is, there is no turn.
pub proof fn law_no_turn_is_made_up(
    request: JsonView,
    model: Seq<char>,
    provider: Seq<char>,
    ceiling: Option<u32>,
)
    requires
        request.get("messages"@) == Some(JsonView::Array(Seq::empty())),
    ensures
        translated(request, model, provider, ceiling) matches Ok(body) ==> body.get("messages"@)
            == Some(JsonView::Array(Seq::empty())) && body.get("system"@) is None,
{
    if translated(request, model, provider, ceiling) is Ok {
        let none = Seq::<JsonView>::empty();
        lemma_said(request, model, provider, ceiling, none);
        assert(spoken(none) =~= Seq::<MessageView>::empty());
        assert(leading(spoken(none)) == 0);
        assert(spoken(none).skip(0) =~= Seq::<MessageView>::empty());
        assert(spoken(none).take(0) =~= Seq::<MessageView>::empty());
        assert(flat(spoken(none).take(0)) =~= Seq::<ContentBlockView>::empty());
    }
}

/// The texts of the system's messages, in order.
proof fn lemma_prompts(messages: Seq<JsonView>, texts: Seq<Seq<char>>)
    requires
        messages.len() == texts.len(),
        forall|i: int|
            0 <= i < messages.len() ==> (#[trigger] messages[i]).get("content"@) == Some(
                JsonView::String(texts[i]),
            ) && messages[i].get("tool_calls"@) is None && messages[i].get("tool_call_id"@) is None,
    ensures
        flat(spoken(messages)) == texts.map_values(
            |text: Seq<char>| ContentBlockView::Text { text, cache: None },
        ),
        checked_messages(spoken(messages)) == Ok::<Seq<JsonView>, ErrorView>(
            texts.map_values(|text: Seq<char>| super::response::text_block(text, None)),
        ),
    decreases messages.len(),
{
    let all = spoken(messages);
    let plain = texts.map_values(|text: Seq<char>| ContentBlockView::Text { text, cache: None });
    let wire = texts.map_values(|text: Seq<char>| super::response::text_block(text, None));
    if messages.len() == 0 {
        assert(flat(all) =~= plain);
        assert(wire =~= Seq::<JsonView>::empty());
    } else {
        let last = messages.last();
        let text = texts.last();
        assert(messages[messages.len() - 1] == last);
        lemma_prompts(messages.drop_last(), texts.drop_last());
        assert(all.drop_last() =~= spoken(messages.drop_last()));
        let block = ContentBlockView::Text { text, cache: None };
        assert(message_blocks(last) =~= seq![block]);
        assert(all.last().content == seq![block]);
        assert(flat(all) =~= plain);
        assert(checked_up_to(seq![block], 0) == Ok::<Seq<JsonView>, ErrorView>(Seq::empty()));
        assert(checked_blocks(seq![block]) == checked_up_to(seq![block], 1));
        assert(seq![block][0] == block);
        assert(checked_blocks(seq![block])->Ok_0 =~= seq![
            super::response::text_block(text, None),
        ]);
        let before = texts.drop_last().map_values(
            |text: Seq<char>| super::response::text_block(text, None),
        );
        assert(before + seq![super::response::text_block(text, None)] =~= wire);
    }
}

/// What the system says before the conversation is the prompt, and no turn: one
/// text is that text; several are as many blocks, in order.
pub proof fn law_the_system_prompt_is_carried_over(
    request: JsonView,
    model: Seq<char>,
    provider: Seq<char>,
    ceiling: Option<u32>,
    prompts: Seq<JsonView>,
    texts: Seq<Seq<char>>,
    rest: Seq<JsonView>,
)
    requires
        request.get("messages"@) == Some(JsonView::Array(prompts + rest)),
        prompts.len() == texts.len(),
        forall|i: int|
            0 <= i < prompts.len() ==> speaks(#[trigger] prompts[i], "system"@) && prompts[i].get(
                "content"@,
            ) == Some(JsonView::String(texts[i])) && prompts[i].get("tool_calls"@) is None
                && prompts[i].get("tool_call_id"@) is None,
        rest.len() > 0 ==> !speaks(rest[0], "system"@),
    ensures
        translated(request, model, provider, ceiling) matches Ok(body) ==> {
            let system = body.get("system"@);
            &&& texts.len() == 0 ==> system is None
            &&& texts.len() == 1 ==> system == Some(JsonView::String(texts[0]))
            &&& texts.len() > 1 ==> {
                &&& system is Some
                &&& system->0 is Array
                &&& system->0->Array_0.len() == texts.len()
                &&& forall|i: int|
                    0 <= i < texts.len() ==> (#[trigger] system->0->Array_0[i]).get("type"@)
                        == Some(JsonView::String("text"@)) && system->0->Array_0[i].get("text"@)
                        == Some(JsonView::String(texts[i]))
            }
        },
{
    broadcast use group_find;

    lemma_block_keys();
    let messages = prompts + rest;
    if translated(request, model, provider, ceiling) is Ok {
        let all = spoken(messages);
        lemma_said(request, model, provider, ceiling, messages);
        assert forall|i: int| 0 <= i < prompts.len() implies (#[trigger] all[i]).role
            == Role::System by {
            assert(messages[i] == prompts[i]);
            lemma_speaks(prompts[i]);
        }
        if rest.len() > 0 {
            assert(messages[prompts.len() as int] == rest[0]);
            lemma_speaks(rest[0]);
        }
        lemma_leading(all, prompts.len());
        assert(all.take(prompts.len() as int) =~= spoken(prompts));
        lemma_prompts(prompts, texts);
        let plain = flat(spoken(prompts));
        if texts.len() == 1 {
            assert(plain[0] == (ContentBlockView::Text { text: texts[0], cache: None }));
        }
    }
}

/// What the system says once the conversation has begun has no place here: it is
/// refused, never moved or dropped.
pub proof fn law_a_late_system_message_is_refused(
    request: JsonView,
    model: Seq<char>,
    provider: Seq<char>,
    ceiling: Option<u32>,
    messages: Seq<JsonView>,
    i: int,
    j: int,
)
    requires
        request.get("messages"@) == Some(JsonView::Array(messages)),
        0 <= i < j < messages.len(),
        !speaks(messages[i], "system"@),
        speaks(messages[j], "system"@),
    ensures
        translated(request, model, provider, ceiling) matches Err(ErrorView::NotImplemented(_)),
{
    let view = openai_compat::request::ingested_request(request, model);
    let all = spoken(messages);
    assert(view.messages =~= all);
    lemma_speaks(messages[i]);
    lemma_speaks(messages[j]);
    assert(all[i] == ingested_message(messages[i]));
    assert(all[j] == ingested_message(messages[j]));
    lemma_leading_bound(all, i);
    assert(late_system(all));
}

proof fn lemma_leading_bound(messages: Seq<MessageView>, i: int)
    requires
        0 <= i < messages.len(),
        messages[i].role != Role::System,
    ensures
        leading(messages) <= i,
    decreases messages.len(),
{
    if i > 0 {
        assert(messages.drop_first()[i - 1] == messages[i]);
        lemma_leading_bound(messages.drop_first(), i - 1);
    }
}

/// A part of sound, or a file by its bytes alone.
pub open spec fn formless(part: JsonView) -> bool {
    let tag = part.get("type"@);
    let audio = part.get("input_audio"@);
    let file = part.get("file"@);
    ||| tag == Some(JsonView::String("input_audio"@)) && audio is Some && (audio->0.get("data"@)
        matches Some(JsonView::String(_))) && (audio->0.get("format"@) matches Some(
        JsonView::String(_),
    ))
    ||| tag == Some(JsonView::String("file"@)) && file is Some && file->0.get("file_id"@) is None
        && (file->0.get("file_data"@) matches Some(JsonView::String(_)))
}

/// Sound, and a file by its bytes alone, have no form here. They are refused, wherever
/// they stand in a message or in a tool's result.
pub proof fn law_a_part_without_a_form_is_refused(
    request: JsonView,
    model: Seq<char>,
    provider: Seq<char>,
    ceiling: Option<u32>,
    messages: Seq<JsonView>,
    m: int,
    parts: Seq<JsonView>,
    i: int,
)
    requires
        request.get("messages"@) == Some(JsonView::Array(messages)),
        0 <= m < messages.len(),
        messages[m].get("content"@) == Some(JsonView::Array(parts)),
        0 <= i < parts.len(),
        formless(parts[i]),
    ensures
        translated(request, model, provider, ceiling) matches Err(ErrorView::NotImplemented(_)),
{
    lemma_part_words();
    let view = openai_compat::request::ingested_request(request, model);
    let all = spoken(messages);
    assert(view.messages =~= all);
    let said = ingested_message(messages[m]);
    assert(all[m] == said);
    let blocks = parts.map_values(|part: JsonView| ingested_part(part));
    assert(content_blocks(messages[m]) =~= blocks);
    assert(blocks[i] == ingested_part(parts[i]));
    let sound = blocks[i] is Audio;
    assert(is_or_holds(blocks[i], such_block(sound)));
    assert(any_is_or_holds(blocks, such_block(sound)));
    match messages[m].str_at("tool_call_id"@) {
        Some(call_id) => {
            assert(said.content[0] == (ContentBlockView::ToolResult {
                call_id,
                content: blocks,
                is_error: false,
            }));
            assert(is_or_holds(said.content[0], such_block(sound)));
        },
        None => {
            assert(said.content[i] == blocks[i]);
        },
    }
    assert(any_is_or_holds(said.content, such_block(sound)));
    assert(message_has(all[m], such_block(sound)));
    assert(request_has(all, such_block(sound)));
}

proof fn lemma_run_formed(messages: Seq<MessageView>, i: int)
    requires
        0 <= i < messages.len(),
        checked_messages(messages) is Ok,
    ensures
        checked_blocks(messages[i].content) is Ok,
    decreases messages.len(),
{
    if i < messages.len() - 1 {
        assert(messages.drop_last()[i] == messages[i]);
        lemma_run_formed(messages.drop_last(), i);
    }
}

proof fn lemma_turns_formed(messages: Seq<MessageView>, provider: Seq<char>, i: int)
    requires
        0 <= i < messages.len(),
        unmarked(messages, provider),
        rendered_turns(messages, provider) is Ok,
    ensures
        checked_blocks(messages[i].content) is Ok,
    decreases messages.len(),
{
    broadcast use group_find;

    lemma_results_run(messages, provider);
    let n = turn_len(messages, provider) as int;
    if i < n {
        assert(messages.take(n)[0] == messages[0]);
        assert(messages.take(n)[i] == messages[i]);
        lemma_run_formed(messages.take(n), i);
    } else {
        assert(messages.skip(n)[i - n] == messages[i]);
        lemma_turns_formed(messages.skip(n), provider, i - n);
    }
}

proof fn lemma_blocks_formed(blocks: Seq<ContentBlockView>, n: nat, i: int)
    requires
        0 <= i < n <= blocks.len(),
        checked_up_to(blocks, n) is Ok,
    ensures
        checked_block(blocks[i]) is Ok,
    decreases n,
{
    if i < n - 1 {
        lemma_blocks_formed(blocks, (n - 1) as nat, i);
    }
}

/// A file by its id means nothing to another provider, and a part of no known kind has
/// no form here; nor has a call whose arguments are no object. What is said of the
/// user's or the assistant's with any of them is refused, never sent without it.
#[verifier::rlimit(40)]
pub proof fn law_what_cannot_be_told_is_refused(
    request: JsonView,
    model: Seq<char>,
    provider: Seq<char>,
    ceiling: Option<u32>,
    messages: Seq<JsonView>,
    m: int,
    i: int,
    arguments: Seq<char>,
)
    requires
        request.get("messages"@) == Some(JsonView::Array(messages)),
        0 <= m < messages.len(),
        speaks(messages[m], "user"@) || speaks(messages[m], "assistant"@),
        messages[m].get("tool_call_id"@) is None,
        ({
            let content = messages[m].get("content"@);
            let part = content->0->Array_0[i];
            let calls = messages[m].get("tool_calls"@);
            let call = calls->0->Array_0[i];
            ||| content is Some && content->0 is Array && 0 <= i < content->0->Array_0.len() && (
            part.get("type"@) == Some(JsonView::String("file"@)) && part.get("file"@) is Some
                && part.get("file"@)->0.get("file_id"@) is Some && part.get("file"@)->0.get(
                "file_id"@,
            )->0 is String)
            ||| content is Some && content->0 is Array && 0 <= i < content->0->Array_0.len()
                && part.get("type"@) != Some(JsonView::String("text"@)) && part.get("type"@) != Some(
                JsonView::String("image_url"@),
            ) && part.get("type"@) != Some(JsonView::String("input_audio"@)) && part.get("type"@)
                != Some(JsonView::String("file"@))
            ||| calls is Some && calls->0 is Array && 0 <= i < calls->0->Array_0.len() && call
                is Object && (call.get("id"@) matches Some(JsonView::String(_))) && (call.get(
                "type"@,
            ) matches Some(JsonView::String(_))) && call.get("function"@) is Some && (call.get(
                "function"@,
            )->0.get("name"@) matches Some(JsonView::String(_))) && call.get("function"@)->0.get(
                "arguments"@,
            ) == Some(JsonView::String(arguments)) && !(raw_value(arguments) matches Some(
                JsonView::Object(_),
            ))
        }),
    ensures
        translated(request, model, provider, ceiling) is Err,
{
    lemma_part_words();
    lemma_role_words();
    if translated(request, model, provider, ceiling) is Ok {
        lemma_said(request, model, provider, ceiling, messages);
        let all = spoken(messages);
        let n = leading(all) as int;
        lemma_speaks(messages[m]);
        let said = ingested_message(messages[m]);
        assert(all[m] == said);
        lemma_leading_bound(all, m);
        lemma_unmarked(messages, provider);
        assert(unmarked(all.skip(n), provider));
        assert(all.skip(n)[m - n] == said);
        lemma_turns_formed(all.skip(n), provider, m - n);
        let blocks = message_blocks(messages[m]);
        let content = content_blocks(messages[m]);
        let calls = messages[m].items_at("tool_calls"@);
        if 0 <= i < content.len() {
            assert(blocks[i] == content[i]);
            lemma_blocks_formed(blocks, blocks.len(), i);
        }
        if 0 <= i < calls.len() {
            assert(blocks[content.len() + i] == openai_compat::request::ingested_call(calls[i]));
            lemma_blocks_formed(blocks, blocks.len(), content.len() + i);
        }
    }
}

/// A message of a single part: a text is told as that text, and an image as one block.
#[verifier::rlimit(40)]
pub proof fn law_a_single_part_is_told(
    request: JsonView,
    later: JsonView,
    model: Seq<char>,
    provider: Seq<char>,
    ceiling: Option<u32>,
    messages: Seq<JsonView>,
    message: JsonView,
    part: JsonView,
    said: Seq<char>,
)
    requires
        request.get("messages"@) == Some(JsonView::Array(messages)),
        later.get("messages"@) == Some(JsonView::Array(messages.push(message))),
        translated(request, model, provider, ceiling) is Ok,
        translated(later, model, provider, ceiling) is Ok,
        speaks(message, "user"@) || speaks(message, "assistant"@),
        message.get("content"@) == Some(JsonView::Array(seq![part])),
        message.get("tool_calls"@) is None,
        message.get("tool_call_id"@) is None,
    ensures
        ({
            let content = turns_of(translated(later, model, provider, ceiling)->Ok_0).last().get(
                "content"@,
            );
            &&& part.get("type"@) == Some(JsonView::String("text"@)) && part.get("text"@) == Some(
                JsonView::String(said),
            ) ==> content == Some(JsonView::String(said))
            &&& part.get("type"@) == Some(JsonView::String("image_url"@)) && part.get("image_url"@)
                is Some && part.get("image_url"@)->0.get("url"@) == Some(JsonView::String(said))
                ==> {
                let block = content->0->Array_0[0];
                let source = block.get("source"@);
                &&& content is Some
                &&& content->0 is Array
                &&& content->0->Array_0.len() == 1
                &&& block.get("type"@) == Some(JsonView::String("image"@))
                &&& source is Some
                &&& (said.len() < 5 || said.take(5) != "data:"@) ==> source->0.get("type"@) == Some(
                    JsonView::String("url"@),
                ) && source->0.get("url"@) == Some(JsonView::String(said))
            }
        }),
{
    lemma_role_words();
    lemma_part_words();
    lemma_added(request, later, model, provider, ceiling, messages, message);
    let block = ingested_part(part);
    assert(seq![part][0] == part);
    assert(message_blocks(message) =~= seq![block]);
    assert(seq![block][0] == block);
    assert(!(message_blocks(message)[0] is Audio));
    if part.get("type"@) == Some(JsonView::String("text"@)) && part.get("text"@) == Some(
        JsonView::String(said),
    ) {
        lemma_bare_text(said);
    } else if block is Image {
        lemma_each_block(seq![block], 1);
        let out = checked_blocks(seq![block])->Ok_0;
        lemma_told_part(part, out[0], said);
        lemma_block_words();
    }
}

/// A part that has a form on both wires: a text, or an image that is linked or
/// whose bytes have a type.
pub open spec fn ordinary_part(part: JsonView) -> bool {
    let image = part.get("image_url"@);
    ||| part.get("type"@) == Some(JsonView::String("text"@)) && (part.get("text"@) matches Some(
        JsonView::String(_),
    ))
    ||| part.get("type"@) == Some(JsonView::String("image_url"@)) && image is Some && (image->0.get(
        "url"@,
    ) matches Some(JsonView::String(url)) && (url.len() < 13 || url.take(13) != "data:;base64,"@))
}

/// A call of a function whose arguments are an object.
pub open spec fn ordinary_call(call: JsonView) -> bool {
    let function = call.get("function"@);
    &&& call is Object
    &&& call.get("id"@) matches Some(JsonView::String(_))
    &&& call.get("type"@) == Some(JsonView::String("function"@))
    &&& function is Some
    &&& function->0.get("name"@) matches Some(JsonView::String(_))
    &&& function->0.get("arguments"@) matches Some(JsonView::String(arguments)) && (raw_value(
        arguments,
    ) matches Some(JsonView::Object(_)))
}

/// A message of text, of parts that have a form on both wires, or of calls.
pub open spec fn ordinary_message(message: JsonView) -> bool {
    let content = message.get("content"@);
    let calls = message.get("tool_calls"@);
    &&& content is None || content->0 is Null || content->0 is String || content->0 is Array
    &&& content matches Some(JsonView::Array(parts)) ==> forall|i: int|
        0 <= i < parts.len() ==> ordinary_part(#[trigger] parts[i])
    &&& calls is None || calls->0 is Null || calls->0 is Array
    &&& calls matches Some(JsonView::Array(items)) ==> forall|i: int|
        0 <= i < items.len() ==> ordinary_call(#[trigger] items[i])
}

/// A block that has a form here.
spec fn formed(block: ContentBlockView) -> bool {
    &&& checked_block(block) matches Ok(Some(_))
    &&& !is_or_holds(block, such_block(true))
    &&& !is_or_holds(block, such_block(false))
}

proof fn lemma_formed_part(part: JsonView)
    requires
        ordinary_part(part),
    ensures
        formed(ingested_part(part)),
{
    lemma_part_words();
    reveal_strlit("data:");
    reveal_strlit(";base64,");
    reveal_strlit("data:;base64,");
    let url = part.get("image_url"@)->0.get("url"@)->0->String_0;
    if part.get("type"@) == Some(JsonView::String("image_url"@)) {
        match crate::text::stripped(url, "data:"@) {
            Some(rest) => {
                assert(url =~= "data:"@ + rest);
                crate::text::lemma_halves(rest, ";base64,"@);
                match crate::text::halves(rest, ";base64,"@) {
                    Some((media_type, data)) => {
                        if media_type.len() == 0 {
                            assert(rest.take(8) =~= ";base64,"@);
                        }
                    },
                    None => {},
                }
                if crate::text::starts(rest, ";base64,"@) {
                    assert(url.take(13) =~= "data:"@ + rest.take(8));
                    assert("data:"@ + ";base64,"@ =~= "data:;base64,"@);
                }
            },
            None => {},
        }
    }
}

proof fn lemma_formed_call(call: JsonView)
    requires
        ordinary_call(call),
    ensures
        formed(openai_compat::request::ingested_call(call)),
{
}

/// Blocks that all have a form are rendered.
proof fn lemma_formed_blocks(blocks: Seq<ContentBlockView>, n: nat)
    requires
        n <= blocks.len(),
        forall|i: int| 0 <= i < blocks.len() ==> formed(#[trigger] blocks[i]),
    ensures
        checked_up_to(blocks, n) is Ok,
        !any_is_or_holds(blocks, such_block(true)),
        !any_is_or_holds(blocks, such_block(false)),
    decreases n,
{
    if n > 0 {
        lemma_formed_blocks(blocks, (n - 1) as nat);
        assert(formed(blocks[n - 1]));
    }
}

proof fn lemma_formed_message(message: JsonView)
    requires
        ordinary_message(message),
    ensures
        checked_blocks(message_blocks(message)) is Ok,
        !any_is_or_holds(message_blocks(message), such_block(true)),
        !any_is_or_holds(message_blocks(message), such_block(false)),
{
    let said = content_blocks(message);
    assert forall|i: int| 0 <= i < said.len() implies formed(#[trigger] said[i]) by {
        match message.get("content"@) {
            Some(JsonView::Array(parts)) => {
                assert(said[i] == ingested_part(parts[i]));
                lemma_formed_part(parts[i]);
            },
            _ => {},
        }
    }
    lemma_formed_blocks(said, said.len());
    let blocks = message_blocks(message);
    let calls = message.items_at("tool_calls"@);
    assert forall|i: int| 0 <= i < blocks.len() implies formed(#[trigger] blocks[i]) by {
        let start = blocks.len() - calls.len();
        if i >= start {
            assert(ordinary_call(calls[i - start]));
            lemma_formed_call(calls[i - start]);
            assert(blocks[i] == openai_compat::request::ingested_call(calls[i - start]));
        } else {
            match message.str_at("tool_call_id"@) {
                Some(call_id) => {
                    let block = ContentBlockView::ToolResult {
                        call_id,
                        content: said,
                        is_error: false,
                    };
                    assert(blocks[i] == block);
                    assert(checked_blocks(said) is Ok);
                    assert(checked_block(block) matches Ok(Some(_)));
                },
                None => {
                    assert(blocks[i] == said[i]);
                },
            }
        }
    }
    lemma_formed_blocks(blocks, blocks.len());
}

proof fn lemma_formed_run(messages: Seq<MessageView>)
    requires
        forall|i: int| 0 <= i < messages.len() ==> checked_blocks((#[trigger] messages[i]).content)
            is Ok,
    ensures
        checked_messages(messages) is Ok,
    decreases messages.len(),
{
    if messages.len() > 0 {
        lemma_formed_run(messages.drop_last());
        assert(checked_blocks(messages[messages.len() - 1].content) is Ok);
    }
}

proof fn lemma_formed_turns(messages: Seq<MessageView>, provider: Seq<char>)
    requires
        unmarked(messages, provider),
        forall|i: int| 0 <= i < messages.len() ==> checked_blocks((#[trigger] messages[i]).content)
            is Ok,
    ensures
        rendered_turns(messages, provider) is Ok,
    decreases messages.len(),
{
    broadcast use group_find;

    if messages.len() > 0 {
        lemma_results_run(messages, provider);
        let n = turn_len(messages, provider) as int;
        lemma_formed_run(messages.take(n));
        assert(messages.take(n)[0] == messages[0]);
        assert(rendered_turn(messages.take(n), provider) is Ok);
        lemma_formed_turns(messages.skip(n), provider);
    }
}

/// An ordinary request is never refused: messages of text, images, calls and
/// results, with the system's first; functions that have a schema; a limit that
/// is known; and no reply that is any JSON at all.
#[verifier::rlimit(40)]
pub proof fn law_an_ordinary_request_is_rendered(
    request: JsonView,
    model: Seq<char>,
    provider: Seq<char>,
    ceiling: Option<u32>,
    messages: Seq<JsonView>,
    n: int,
)
    requires
        request.get("messages"@) == Some(JsonView::Array(messages)),
        forall|i: int| 0 <= i < messages.len() ==> ordinary_message(#[trigger] messages[i]),
        0 <= n <= messages.len(),
        forall|i: int| 0 <= i < n ==> speaks(#[trigger] messages[i], "system"@),
        forall|i: int| n <= i < messages.len() ==> !speaks(#[trigger] messages[i], "system"@),
        request.get("tools"@) matches Some(JsonView::Array(tools)) ==> forall|i: int|
            0 <= i < tools.len() ==> (#[trigger] tools[i]).get("function"@) is Some && tools[i].get(
                "function"@,
            )->0 is Object && tools[i].get("function"@)->0.get("parameters"@) is Some && !(tools[i].get(
                "function"@,
            )->0.get("parameters"@)->0 is Null),
        request.get("response_format"@) is None || request.get("response_format"@)->0.get("type"@)
            != Some(JsonView::String("json_object"@)),
        ceiling is Some || (request.get("max_tokens"@) matches Some(
            JsonView::Number(NumberView::Unsigned(limit)),
        ) && limit <= u32::MAX) || (request.get("max_completion_tokens"@) matches Some(
            JsonView::Number(NumberView::Unsigned(limit)),
        ) && limit <= u32::MAX),
    ensures
        translated(request, model, provider, ceiling) is Ok,
{
    broadcast use group_find;

    let view = openai_compat::request::ingested_request(request, model);
    let all = spoken(messages);
    lemma_nothing_kept(request_residue(request.fields()), provider);
    assert(view.messages =~= all);
    lemma_unmarked(messages, provider);
    assert forall|i: int| 0 <= i < all.len() implies checked_blocks((#[trigger] all[i]).content)
        is Ok && !message_has(all[i], such_block(true)) && !message_has(
        all[i],
        such_block(false),
    ) by {
        assert(ordinary_message(messages[i]));
        lemma_formed_message(messages[i]);
    }
    assert forall|i: int| 0 <= i < all.len() implies ((#[trigger] all[i]).role == Role::System)
        == (i < n) by {
        lemma_speaks(messages[i]);
        assert(speaks(messages[i], "system"@) == (i < n));
    }
    lemma_leading(all, n as nat);
    assert(!late_system(all));
    assert(refusal(view) is None);
    let rest = all.skip(n);
    assert forall|i: int| 0 <= i < rest.len() implies checked_blocks((#[trigger] rest[i]).content)
        is Ok by {
        assert(rest[i] == all[i + n]);
    }
    assert(unmarked(rest, provider));
    lemma_formed_turns(rest, provider);
    let first = all.take(n);
    assert forall|i: int| 0 <= i < first.len() implies checked_blocks((#[trigger] first[i]).content)
        is Ok by {
        assert(first[i] == all[i]);
    }
    lemma_formed_run(first);
    assert(rendered_conversation(all, provider, false) is Ok);
    if openai_compat::request::lacks_a_schema(view.tools) {
        let i = choose|i: int|
            0 <= i < view.tools.len() && (#[trigger] view.tools[i]).input_schema is Null;
        assert(view.tools[i] == openai_compat::request::ingested_tool(
            request.items_at("tools"@)[i],
        ));
    }
    lemma_formed_config(view, request);
}

proof fn lemma_formed_config(view: ChatRequestView, request: JsonView)
    requires
        view.response_format == (match request.get("response_format"@) {
            Some(format) => openai_compat::request::ingested_response_format(format),
            None => None,
        }),
        request.get("response_format"@) is None || request.get("response_format"@)->0.get("type"@)
            != Some(JsonView::String("json_object"@)),
    ensures
        super::request::rendered_output_config(view, no_fields()) is Ok,
{
    broadcast use group_find;

}

/// A tool's result of several texts is told with as many blocks, in order.
pub proof fn law_a_result_of_parts_is_told_in_order(
    request: JsonView,
    later: JsonView,
    model: Seq<char>,
    provider: Seq<char>,
    ceiling: Option<u32>,
    messages: Seq<JsonView>,
    message: JsonView,
    call_id: Seq<char>,
    parts: Seq<JsonView>,
    i: int,
    said: Seq<char>,
)
    requires
        request.get("messages"@) == Some(JsonView::Array(messages)),
        later.get("messages"@) == Some(JsonView::Array(messages.push(message))),
        translated(request, model, provider, ceiling) is Ok,
        translated(later, model, provider, ceiling) is Ok,
        speaks(message, "tool"@),
        messages.len() == 0 || !speaks(messages.last(), "tool"@),
        message.get("content"@) == Some(JsonView::Array(parts)),
        message.get("tool_calls"@) is None,
        message.get("tool_call_id"@) == Some(JsonView::String(call_id)),
        parts.len() > 1,
        forall|k: int| 0 <= k < parts.len() ==> ordinary_part(#[trigger] parts[k]),
        0 <= i < parts.len(),
        parts[i].get("type"@) == Some(JsonView::String("text"@)),
        parts[i].get("text"@) == Some(JsonView::String(said)),
    ensures
        ({
            let content = turns_of(translated(later, model, provider, ceiling)->Ok_0).last().get(
                "content"@,
            );
            let result = content->0->Array_0[0];
            let inner = result.get("content"@);
            &&& content is Some
            &&& content->0 is Array
            &&& content->0->Array_0.len() == 1
            &&& result.get("type"@) == Some(JsonView::String("tool_result"@))
            &&& result.get("tool_use_id"@) == Some(JsonView::String(call_id))
            &&& inner is Some
            &&& inner->0 is Array
            &&& inner->0->Array_0.len() == parts.len()
            &&& inner->0->Array_0[i].get("type"@) == Some(JsonView::String("text"@))
            &&& inner->0->Array_0[i].get("text"@) == Some(JsonView::String(said))
        }),
{
    lemma_role_words();
    lemma_part_words();
    lemma_added(request, later, model, provider, ceiling, messages, message);
    let blocks = parts.map_values(|part: JsonView| ingested_part(part));
    assert(content_blocks(message) =~= blocks);
    let result = ContentBlockView::ToolResult { call_id, content: blocks, is_error: false };
    assert(message_blocks(message) =~= seq![result]);
    assert(seq![result][0] == result);
    assert forall|k: int| 0 <= k < blocks.len() implies formed(#[trigger] blocks[k]) by {
        assert(ordinary_part(parts[k]));
        lemma_formed_part(parts[k]);
    }
    lemma_formed_blocks(blocks, blocks.len());
    assert forall|k: int| 0 <= k < blocks.len() implies checked_block(#[trigger] blocks[k]) != Ok::<
        Option<JsonView>,
        ErrorView,
    >(None) by {
        assert(formed(blocks[k]));
    }
    lemma_each_block(blocks, blocks.len());
    let out = checked_blocks(blocks)->Ok_0;
    assert(blocks[i] == ingested_part(parts[i]));
    lemma_told_part(parts[i], out[i], said);
    lemma_result_of(call_id, blocks, out);
}

proof fn lemma_result_of(call_id: Seq<char>, blocks: Seq<ContentBlockView>, out: Seq<JsonView>)
    requires
        blocks.len() > 1,
        checked_blocks(blocks) == Ok::<Seq<JsonView>, ErrorView>(out),
    ensures
        ({
            let result = ContentBlockView::ToolResult { call_id, content: blocks, is_error: false };
            let wire = super::response::tool_result_block(call_id, JsonView::Array(out), false);
            let content = super::request::rendered_content(checked_blocks(seq![result])->Ok_0);
            &&& content == JsonView::Array(seq![wire])
            &&& wire.get("type"@) == Some(JsonView::String("tool_result"@))
            &&& wire.get("tool_use_id"@) == Some(JsonView::String(call_id))
            &&& wire.get("content"@) == Some(JsonView::Array(out))
        }),
{
    broadcast use group_find;

    lemma_block_keys();
    lemma_block_words();
    let result = ContentBlockView::ToolResult { call_id, content: blocks, is_error: false };
    let wire = super::response::tool_result_block(call_id, JsonView::Array(out), false);
    assert(seq![result][0] == result);
    assert(checked_block(result) == Ok::<Option<JsonView>, ErrorView>(Some(wire)));
    assert(checked_up_to(seq![result], 0) == Ok::<Seq<JsonView>, ErrorView>(Seq::empty()));
    assert(checked_blocks(seq![result]) == checked_up_to(seq![result], 1));
    assert(checked_blocks(seq![result])->Ok_0 =~= seq![wire]);
    assert(seq![wire][0] == wire);
}

/// What the system says in parts, at the start, is as many blocks of the prompt, in
/// order.
pub proof fn law_a_prompt_of_parts_is_carried_over(
    request: JsonView,
    model: Seq<char>,
    provider: Seq<char>,
    ceiling: Option<u32>,
    prompt: JsonView,
    rest: Seq<JsonView>,
    parts: Seq<JsonView>,
    i: int,
    said: Seq<char>,
)
    requires
        request.get("messages"@) == Some(JsonView::Array(seq![prompt] + rest)),
        speaks(prompt, "system"@),
        rest.len() > 0 ==> !speaks(rest[0], "system"@),
        prompt.get("content"@) == Some(JsonView::Array(parts)),
        prompt.get("tool_calls"@) is None,
        prompt.get("tool_call_id"@) is None,
        parts.len() > 1,
        forall|k: int| 0 <= k < parts.len() ==> ordinary_part(#[trigger] parts[k]),
        0 <= i < parts.len(),
        parts[i].get("type"@) == Some(JsonView::String("text"@)),
        parts[i].get("text"@) == Some(JsonView::String(said)),
    ensures
        translated(request, model, provider, ceiling) matches Ok(body) ==> {
            let system = body.get("system"@);
            &&& system is Some
            &&& system->0 is Array
            &&& system->0->Array_0.len() == parts.len()
            &&& system->0->Array_0[i].get("type"@) == Some(JsonView::String("text"@))
            &&& system->0->Array_0[i].get("text"@) == Some(JsonView::String(said))
        },
{
    lemma_part_words();
    let messages = seq![prompt] + rest;
    if translated(request, model, provider, ceiling) is Ok {
        let all = spoken(messages);
        lemma_said(request, model, provider, ceiling, messages);
        lemma_speaks(prompt);
        assert(all[0] == ingested_message(prompt));
        if rest.len() > 0 {
            lemma_speaks(rest[0]);
            assert(all[1] == ingested_message(rest[0]));
        }
        lemma_leading(all, 1);
        let first = all.take(1);
        assert(first =~= seq![all[0]]);
        let blocks = parts.map_values(|part: JsonView| ingested_part(part));
        assert(message_blocks(prompt) =~= blocks);
        assert(first.drop_last() =~= Seq::<MessageView>::empty());
        assert(flat(first.drop_last()) =~= Seq::<ContentBlockView>::empty());
        assert(flat(first) =~= blocks);
        assert(checked_messages(first.drop_last()) == Ok::<Seq<JsonView>, ErrorView>(Seq::empty()));
        assert forall|k: int| 0 <= k < blocks.len() implies formed(#[trigger] blocks[k]) by {
            assert(ordinary_part(parts[k]));
            lemma_formed_part(parts[k]);
        }
        lemma_formed_blocks(blocks, blocks.len());
        assert forall|k: int| 0 <= k < blocks.len() implies checked_block(#[trigger] blocks[k])
            != Ok::<Option<JsonView>, ErrorView>(None) by {
            assert(formed(blocks[k]));
        }
        lemma_each_block(blocks, blocks.len());
        let out = checked_blocks(blocks)->Ok_0;
        assert(Seq::<JsonView>::empty() + out =~= out);
        assert(blocks[i] == ingested_part(parts[i]));
        lemma_told_part(parts[i], out[i], said);
    }
}

} // verus!
