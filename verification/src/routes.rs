//! Where a request goes: laws over a client's configuration, its roster and the
//! calls it prepares.
use vstd::prelude::*;

use crate::client::{call_for, client_for, entry_of, CallView, ClientView};
use crate::config::{first_stranger, provider_entries};
use crate::config::{ClientConfigView, ProviderConfigView};
use crate::error::ErrorView;
use crate::gateway::anthropic::translation::{lemma_body, lemma_nothing_kept, translated};
use crate::gateway::openai_compat;
use crate::json::{group_find, lemma_index_of, FieldsView, JsonView};
use crate::json_client::{json_client_for, request_of, streamed, whole_call};
use crate::registry::{entry_for, model_spec, provider_of, ModelEntryView, RosterView};
use crate::text::law_halves_meet_at_the_first_pattern;
use crate::types::Protocol;

verus! {

proof fn lemma_entry_of(entries: Seq<ProviderConfigView>, provider: Seq<char>, i: int)
    requires
        0 <= i < entries.len(),
        entries[i].name == provider,
        forall|j: int| 0 <= j < i ==> (#[trigger] entries[j]).name != provider,
    ensures
        entry_of(entries, provider) == Some(entries[i]),
    decreases entries.len(),
{
    if i > 0 {
        let rest = entries.drop_first();
        assert(entries[0].name != provider);
        assert forall|j: int| 0 <= j < i - 1 implies (#[trigger] rest[j]).name != provider by {
            assert(rest[j] == entries[j + 1]);
        }
        lemma_entry_of(rest, provider, i - 1);
    }
}

proof fn lemma_no_entry_of(entries: Seq<ProviderConfigView>, provider: Seq<char>)
    requires
        forall|j: int| 0 <= j < entries.len() ==> (#[trigger] entries[j]).name != provider,
    ensures
        entry_of(entries, provider) is None,
    decreases entries.len(),
{
    if entries.len() > 0 {
        let rest = entries.drop_first();
        assert(entries[0].name != provider);
        assert forall|j: int| 0 <= j < rest.len() implies (#[trigger] rest[j]).name != provider by {
            assert(rest[j] == entries[j + 1]);
        }
        lemma_no_entry_of(rest, provider);
    }
}

/// Where the entry for a provider is, if there is one.
proof fn lemma_entry_place(entries: Seq<ProviderConfigView>, provider: Seq<char>) -> (i: int)
    requires
        entry_of(entries, provider) is Some,
    ensures
        0 <= i < entries.len(),
        entries[i].name == provider,
        entry_of(entries, provider) == Some(entries[i]),
        forall|j: int| 0 <= j < i ==> (#[trigger] entries[j]).name != provider,
    decreases entries.len(),
{
    if entries[0].name == provider {
        0
    } else {
        let rest = entries.drop_first();
        let i = lemma_entry_place(rest, provider);
        assert forall|j: int| 0 <= j < i + 1 implies (#[trigger] entries[j]).name != provider by {
            if j > 0 {
                assert(rest[j - 1] == entries[j]);
            }
        }
        i + 1
    }
}

/// The key of a call is the one that the entry for the call's own provider gives, and
/// no call carries a key that only another provider's entry holds. Without a list
/// of providers there is no key, and the environment has it.
pub proof fn law_a_call_carries_its_own_providers_key(
    client: ClientView,
    request: JsonView,
    i: int,
)
    ensures
        call_for(client, request) matches Ok(call) ==> match client.config.providers {
            Some(entries) => {
                &&& 0 <= i < entries.len() && entries[i].name == call.provider && (forall|j: int|
                    0 <= j < i ==> (#[trigger] entries[j]).name != call.provider) ==> call.api_key
                    == entries[i].api_key
                &&& exists|k: int|
                    0 <= k < entries.len() && (#[trigger] entries[k]).name == call.provider
                        && entries[k].api_key == call.api_key
            },
            None => call.api_key is None,
        },
{
    if let Ok(call) = call_for(client, request) {
        if let Some(entries) = client.config.providers {
            let k = lemma_entry_place(entries, call.provider);
            assert(entries[k].api_key == call.api_key);
            if 0 <= i < entries.len() && entries[i].name == call.provider && (forall|j: int|
                0 <= j < i ==> (#[trigger] entries[j]).name != call.provider) {
                lemma_entry_of(entries, call.provider, i);
            }
        }
    }
}

proof fn lemma_entries(fields: FieldsView)
    requires
        provider_entries(fields) is Ok,
    ensures
        provider_entries(fields)->Ok_0.len() == fields.len(),
        forall|i: int|
            0 <= i < fields.len() ==> {
                let entry = #[trigger] provider_entries(fields)->Ok_0[i];
                &&& entry.name == fields[i].0
                &&& entry.api_key == (match fields[i].1.get("api_key"@) {
                    Some(JsonView::String(key)) => Some(key),
                    _ => None,
                })
                &&& fields[i].1 is Object
            },
    decreases fields.len(),
{
    if fields.len() > 0 {
        lemma_entries(fields.drop_last());
        let before = provider_entries(fields.drop_last())->Ok_0;
        let all = provider_entries(fields)->Ok_0;
        assert forall|i: int| 0 <= i < fields.len() implies {
            let entry = #[trigger] all[i];
            &&& entry.name == fields[i].0
            &&& entry.api_key == (match fields[i].1.get("api_key"@) {
                Some(JsonView::String(key)) => Some(key),
                _ => None,
            })
            &&& fields[i].1 is Object
        } by {
            if i < before.len() {
                assert(all[i] == before[i]);
                assert(fields.drop_last()[i] == fields[i]);
            }
        }
    }
}

/// A client made from a document serves the providers that the document lists, and
/// all of them where it lists none; a call carries the key that the document holds
/// beside the call's own provider, and no other.
pub proof fn law_the_key_is_read_from_the_document(
    document: JsonView,
    roster: RosterView,
    request: JsonView,
)
    ensures
        json_client_for(Some(document), roster) matches Ok(client) ==> {
            let listed = document.get("providers"@);
            &&& client.roster == roster
            &&& call_for(client, request) matches Ok(call) ==> {
                &&& listed matches Some(JsonView::Object(fields)) ==> {
                    let entry = listed->0.get(call.provider);
                    &&& entry is Some
                    &&& call.api_key == (match entry->0.get("api_key"@) {
                        Some(JsonView::String(key)) => Some(key),
                        _ => None,
                    })
                }
                &&& listed is None ==> call.api_key is None
            }
        },
{
    if let Ok(client) = json_client_for(Some(document), roster) {
        if let Ok(call) = call_for(client, request) {
            if let Some(JsonView::Object(fields)) = document.get("providers"@) {
                lemma_entries(fields);
                let entries = provider_entries(fields)->Ok_0;
                assert(client.config.providers == Some(entries));
                let i = lemma_entry_place(entries, call.provider);
                assert(entries[i].name == fields[i].0);
                assert forall|j: int| 0 <= j < i implies fields[j].0 != call.provider by {
                    assert(entries[j].name == fields[j].0);
                }
                lemma_index_of(fields, call.provider, i as nat);
            }
        }
    }
}

proof fn lemma_entry_for(entries: Seq<ModelEntryView>, model: Seq<char>) -> (i: int)
    ensures
        entry_for(entries, model) is Some ==> 0 <= i < entries.len() && entries[i].model == model
            && entry_for(entries, model) == Some(entries[i]) && forall|j: int|
            0 <= j < i ==> (#[trigger] entries[j]).model != model,
        entry_for(entries, model) is None ==> forall|j: int|
            0 <= j < entries.len() ==> (#[trigger] entries[j]).model != model,
    decreases entries.len(),
{
    if entries.len() == 0 {
        0
    } else if entries[0].model == model {
        0
    } else {
        let rest = entries.drop_first();
        let i = lemma_entry_for(rest, model);
        assert forall|j: int| 0 <= j < entries.len() && (entry_for(rest, model) is None || j < i
            + 1) implies (#[trigger] entries[j]).model != model by {
            if j > 0 {
                assert(rest[j - 1] == entries[j]);
            }
        }
        i + 1
    }
}

/// A model is found where an entry of the roster bears its whole name, and is then
/// what that entry says; its provider is what stands before the first slash of the
/// name, and its name at the provider all that follows. A name that no entry bears
/// is never guessed at.
pub proof fn law_a_model_is_found_by_its_whole_name(roster: RosterView, model: Seq<char>)
    ensures
        match model_spec(roster, model) {
            Some(spec) => {
                &&& model == spec.provider + "/"@ + spec.name
                &&& spec.provider.len() > 0
                &&& spec.name.len() > 0
                &&& !spec.provider.contains('/')
                &&& exists|i: int|
                    0 <= i < roster.entries.len() && (#[trigger] roster.entries[i]).model == model
                        && roster.entries[i].protocol == spec.protocol
                        && roster.entries[i].max_output_tokens == spec.max_output_tokens
            },
            None => forall|i: int, provider: Seq<char>, name: Seq<char>|
                0 <= i < roster.entries.len() && provider.len() > 0 && name.len() > 0
                    && !provider.contains('/') ==> (#[trigger] roster.entries[i]).model
                    != #[trigger] (provider + "/"@ + name) || model != provider + "/"@ + name,
        },
{
    reveal_strlit("/");
    let at = lemma_entry_for(roster.entries, model);
    law_halves_meet_at_the_first_pattern(model, "/"@);
    match model_spec(roster, model) {
        Some(spec) => {
            if spec.provider.contains('/') {
                let k = choose|k: int| 0 <= k < spec.provider.len() && spec.provider[k] == '/';
                assert(model.subrange(k, k + 1) =~= "/"@);
            }
            assert(roster.entries[at].model == model);
        },
        None => {
            assert forall|i: int, provider: Seq<char>, name: Seq<char>|
                0 <= i < roster.entries.len() && provider.len() > 0 && name.len() > 0
                    && !provider.contains('/') implies (#[trigger] roster.entries[i]).model
                != #[trigger] (provider + "/"@ + name) || model != provider + "/"@ + name by {
                if roster.entries[i].model == model && model == provider + "/"@ + name {
                    assert(model.subrange(provider.len() as int, provider.len() as int + 1) =~= "/"@);
                    if let Some((left, right)) = crate::text::halves(model, "/"@) {
                        if left.len() < provider.len() {
                            assert(model[left.len() as int] == '/');
                            assert(provider[left.len() as int] == '/');
                        }
                        assert(left.len() == provider.len());
                        assert(right.len() == name.len());
                    }
                }
            }
        },
    }
}

/// A call goes to the provider that the model's name begins with, speaks what the
/// roster says, asks that provider for the rest of the name, and keeps the name as
/// the caller gave it. What is sent is the request in the provider's protocol,
/// within the limit that the roster documents. Token counts are reported where the
/// caller asks for them.
#[verifier::rlimit(40)]
pub proof fn law_a_call_goes_where_the_model_says(client: ClientView, request: JsonView)
    ensures
        call_for(client, request) matches Ok(call) ==> {
            let spec = model_spec(client.roster, call.model);
            &&& request.get("model"@) == Some(JsonView::String(call.model))
            &&& spec is Some
            &&& call.provider == spec->0.provider
            &&& call.protocol == spec->0.protocol
            &&& call.protocol == Protocol::Anthropic ==> translated(
                request,
                spec->0.name,
                call.provider,
                spec->0.max_output_tokens,
            ) == Ok::<JsonView, ErrorView>(call.body)
            &&& call.protocol == Protocol::OpenAiCompat
                ==> openai_compat::request::rendered_request(
                openai_compat::request::ingested_request(request, spec->0.name),
                call.provider,
            ) == Ok::<JsonView, ErrorView>(call.body)
            &&& call.body.get("model"@) == Some(JsonView::String(spec->0.name))
            &&& call.report_usage <==> request.get("stream_options"@) is Some && request.get(
                "stream_options"@,
            )->0.get("include_usage"@) == Some(JsonView::Bool(true))
        },
{
    broadcast use group_find;

    if let Ok(call) = call_for(client, request) {
        lemma_empty_name(client.roster);
        let spec = model_spec(client.roster, call.model)->0;
        lemma_head_keys();
        match call.protocol {
            Protocol::Anthropic => {
                lemma_nothing_kept(
                    openai_compat::request::request_residue(request.fields()),
                    call.provider,
                );
                lemma_body(
                    openai_compat::request::ingested_request(request, spec.name),
                    call.provider,
                    spec.max_output_tokens,
                );
            },
            Protocol::OpenAiCompat => {},
        }
    }
}

proof fn lemma_empty_name(roster: RosterView)
    ensures
        model_spec(roster, Seq::empty()) is None,
{
    reveal_strlit("/");
    law_halves_meet_at_the_first_pattern(Seq::empty(), "/"@);
}

/// The names within the head of a request differ.
proof fn lemma_head_keys()
    ensures
        "model"@ != "messages"@,
        "model"@ != "stream"@,
        "messages"@ != "stream"@,
{
    reveal_strlit("model");
    reveal_strlit("messages");
    reveal_strlit("stream");
    assert("model"@.len() != "messages"@.len());
    assert("model"@.len() != "stream"@.len());
    assert("messages"@.len() != "stream"@.len());
}

/// A model that the roster does not hold is refused by name; one whose provider the
/// configuration does not list is refused by its provider; what is served and
/// registered is refused only where the provider's protocol has no form for it.
pub proof fn law_a_call_is_refused_for_its_model_or_its_provider(
    client: ClientView,
    request: JsonView,
    model: Seq<char>,
)
    requires
        request.get("model"@) == Some(JsonView::String(model)),
    ensures
        model_spec(client.roster, model) is None ==> call_for(client, request) == Err::<
            CallView,
            ErrorView,
        >(ErrorView::InvalidModel { given: model }),
        model_spec(client.roster, model) matches Some(spec) ==> match client.config.providers {
            Some(entries) => if forall|i: int|
                0 <= i < entries.len() ==> (#[trigger] entries[i]).name != spec.provider {
                call_for(client, request) == Err::<CallView, ErrorView>(
                    ErrorView::ProviderNotDeclared { provider: spec.provider },
                )
            } else {
                rendered(request, spec) is Ok ==> call_for(client, request) is Ok
            },
            None => rendered(request, spec) is Ok ==> call_for(client, request) is Ok,
        },
{
    if let Some(spec) = model_spec(client.roster, model) {
        if let Some(entries) = client.config.providers {
            if forall|i: int|
                0 <= i < entries.len() ==> (#[trigger] entries[i]).name != spec.provider {
                lemma_no_entry_of(entries, spec.provider);
            } else {
                let i = choose|i: int|
                    0 <= i < entries.len() && (#[trigger] entries[i]).name == spec.provider;
                lemma_some_entry(entries, spec.provider, i);
            }
        }
    }
}

proof fn lemma_some_entry(entries: Seq<ProviderConfigView>, provider: Seq<char>, i: int)
    requires
        0 <= i < entries.len(),
        entries[i].name == provider,
    ensures
        entry_of(entries, provider) is Some,
    decreases entries.len(),
{
    if entries[0].name != provider {
        assert(entries.drop_first()[i - 1] == entries[i]);
        lemma_some_entry(entries.drop_first(), provider, i - 1);
    }
}

/// The request in the protocol of its provider.
pub open spec fn rendered(request: JsonView, spec: crate::registry::ModelSpecView) -> Result<
    JsonView,
    ErrorView,
> {
    match spec.protocol {
        Protocol::Anthropic => translated(
            request,
            spec.name,
            spec.provider,
            spec.max_output_tokens,
        ),
        Protocol::OpenAiCompat => openai_compat::request::rendered_request(
            openai_compat::request::ingested_request(request, spec.name),
            spec.provider,
        ),
    }
}

proof fn lemma_stranger(providers: Seq<ProviderConfigView>, roster: RosterView)
    ensures
        match first_stranger(providers, roster) {
            Some(name) => exists|i: int|
                0 <= i < providers.len() && (#[trigger] providers[i]).name == name && provider_of(
                    roster,
                    name,
                ) is None,
            None => forall|i: int|
                0 <= i < providers.len() ==> provider_of(roster, (#[trigger] providers[i]).name)
                    is Some,
        },
    decreases providers.len(),
{
    if providers.len() > 0 {
        let rest = providers.drop_first();
        lemma_stranger(rest, roster);
        assert(providers[0].name == providers[0].name);
        if provider_of(roster, providers[0].name) is Some {
            match first_stranger(rest, roster) {
                Some(name) => {
                    let i = choose|i: int|
                        0 <= i < rest.len() && (#[trigger] rest[i]).name == name && provider_of(
                            roster,
                            name,
                        ) is None;
                    assert(providers[i + 1] == rest[i]);
                },
                None => {
                    assert forall|i: int| 0 <= i < providers.len() implies provider_of(
                        roster,
                        (#[trigger] providers[i]).name,
                    ) is Some by {
                        if i > 0 {
                            assert(rest[i - 1] == providers[i]);
                        }
                    }
                },
            }
        }
    }
}

/// A client is made exactly where the roster has every provider that the
/// configuration lists, and then holds both as they are; otherwise the caller is
/// told which provider is unknown.
pub proof fn law_a_client_knows_its_providers(config: ClientConfigView, roster: RosterView)
    ensures
        match client_for(config, roster) {
            Ok(client) => {
                &&& client.config == config
                &&& client.roster == roster
                &&& config.providers matches Some(entries) ==> forall|i: int|
                    0 <= i < entries.len() ==> provider_of(roster, (#[trigger] entries[i]).name)
                        is Some
            },
            Err(error) => config.providers matches Some(entries) && exists|i: int|
                0 <= i < entries.len() && provider_of(roster, (#[trigger] entries[i]).name) is None
                    && error == ErrorView::InvalidInput(
                    "provider '"@ + entries[i].name + "' is not in the roster"@,
                ),
        },
{
    if let Some(entries) = config.providers {
        lemma_stranger(entries, roster);
    }
}

/// A request for a whole reply that asks for a stream is refused, and any other is
/// sent as it is; a request for a stream is sent as one that asks for it, whatever
/// it said, and is the same otherwise.
#[verifier::rlimit(40)]
pub proof fn law_a_stream_is_asked_for_where_it_is_wanted(
    client: ClientView,
    request: JsonView,
    key: Seq<char>,
)
    ensures
        request.get("stream"@) == Some(JsonView::Bool(true)) ==> whole_call(client, request)
            == Err::<CallView, ErrorView>(
            ErrorView::InvalidInput("stream: true asks for chunks; call chat_completions_stream"@),
        ),
        request.get("stream"@) != Some(JsonView::Bool(true)) ==> whole_call(client, request)
            == call_for(client, request),
        streamed(request).get("stream"@) == Some(JsonView::Bool(true)),
        key != "stream"@ ==> streamed(request).get(key) == request.get(key),
        call_for(client, streamed(request)) matches Ok(call) ==> call.body.get("stream"@) == Some(
            JsonView::Bool(true),
        ),
{
    broadcast use group_find;

    let asked = streamed(request);
    if let Ok(call) = call_for(client, asked) {
        law_a_call_goes_where_the_model_says(client, asked);
        let spec = model_spec(client.roster, call.model)->0;
        lemma_head_keys();
        match call.protocol {
            Protocol::Anthropic => {
                lemma_nothing_kept(
                    openai_compat::request::request_residue(asked.fields()),
                    call.provider,
                );
                lemma_body(
                    openai_compat::request::ingested_request(asked, spec.name),
                    call.provider,
                    spec.max_output_tokens,
                );
            },
            Protocol::OpenAiCompat => {},
        }
    }
}

/// A document that is a request is taken as it is; a text that is no JSON, or a
/// document without a model or without messages, is refused.
pub proof fn law_a_request_is_taken_as_it_is(parsed: Option<JsonView>)
    ensures
        match request_of(parsed) {
            Ok(request) => {
                &&& parsed == Some(request)
                &&& request.get("model"@) matches Some(JsonView::String(_))
                &&& request.get("messages"@) matches Some(JsonView::Array(_))
            },
            Err(error) => error is InvalidInput,
        },
        parsed is None ==> request_of(parsed) is Err,
{
}

} // verus!
