//! Clients that take and give JSON texts.
use vstd::prelude::*;

use crate::balancer::{
    balancer_for, turn_of, turned, turning, Balancer, BalancerView, Candidate, CandidateView,
};
use crate::client::{call_for, client_for, conclude, reply_in, undecodable, Call, CallView, Client};
use crate::balancer::law_no_turn_falls_to_weight_zero;
use crate::client::ClientView;
use crate::config::{config_of, ClientConfig};
use crate::error::{outcome, Error, ErrorView};
use crate::gateway::anthropic::exchange::{given, stepped, ChatChunkStream, ChatChunkStreamView};
use crate::gateway::anthropic::stream::fresh;
use crate::gateway::openai_compat::ordinals::ToolCallOrdinals;
use crate::gateway::openai_compat::response::{render_response, rendered_response};
use crate::gateway::openai_compat::stream::{
    ingest_chunk, ingested_chunk, render_chunk, rendered_chunk,
};
use crate::gateway::openai_compat::wire::{chunk_shape, is_chunk, is_request, request_shape};
use crate::http::ResponseParts;
use crate::json::{group_find, put, string, Json, JsonView};
use crate::json_text::{json_of_text, text_of_json};
use crate::registry::{builtin_roster, model_spec, Roster, RosterView};
use crate::types::Protocol;

verus! {

// ---------------------------------------------------------------------------
// Requests
// ---------------------------------------------------------------------------

/// The request that a document is, or why it is none.
pub open spec fn request_of(parsed: Option<JsonView>) -> Result<JsonView, ErrorView> {
    match parsed {
        None => Err(ErrorView::InvalidInput("the request is not JSON"@)),
        Some(value) => if request_shape(value) {
            Ok(value)
        } else {
            Err(ErrorView::InvalidInput("the request is not a chat-completions request"@))
        },
    }
}

/// Checks that a document is a request.
pub fn check_request(parsed: Option<Json>) -> (r: Result<Json, Error>)
    ensures
        outcome(r) == request_of(parsed.deep_view()),
{
    match parsed {
        None => Err(Error::InvalidInput("the request is not JSON".to_owned())),
        Some(value) => if is_request(&value) {
            Ok(value)
        } else {
            Err(Error::InvalidInput("the request is not a chat-completions request".to_owned()))
        },
    }
}

/// Reads a request.
pub fn parse_request(request_json: &str) -> (r: Result<Json, Error>)
    ensures
        outcome(r) == request_of(json_of_text(request_json@)),
{
    check_request(Json::parse(request_json))
}

/// A whole reply cannot carry chunks.
pub open spec fn asks_for_chunks() -> ErrorView {
    ErrorView::InvalidInput("stream: true asks for chunks; call chat_completions_stream"@)
}

/// The call for a whole reply.
pub open spec fn whole_call(client: ClientView, request: JsonView) -> Result<
    CallView,
    ErrorView,
> {
    if request.bool_at("stream"@) == Some(true) {
        Err(asks_for_chunks())
    } else {
        call_for(client, request)
    }
}

/// The request with a stream asked for.
pub open spec fn streamed(request: JsonView) -> JsonView {
    JsonView::Object(put(request.fields(), "stream"@, JsonView::Bool(true)))
}

/// What a request gives, where it is one.
pub open spec fn when_request(
    parsed: Option<JsonView>,
    call: spec_fn(JsonView) -> Result<CallView, ErrorView>,
) -> Result<CallView, ErrorView> {
    match request_of(parsed) {
        Ok(request) => call(request),
        Err(error) => Err(error),
    }
}

fn prepare_whole(client: &Client, request: &Json) -> (r: Result<Call, Error>)
    ensures
        outcome(r) == whole_call(client@, request@),
{
    if let Some(true) = request.bool_at("stream") {
        return Err(
            Error::InvalidInput(
                "stream: true asks for chunks; call chat_completions_stream".to_owned(),
            ),
        );
    }
    client.prepare(request)
}

fn prepare_stream(client: &Client, request: &Json) -> (r: Result<Call, Error>)
    ensures
        outcome(r) == call_for(client@, streamed(request@)),
{
    let mut fields = request.fields();
    fields.put("stream", Json::Bool(true));
    client.prepare(&Json::Object(fields))
}

// ---------------------------------------------------------------------------
// The client
// ---------------------------------------------------------------------------

/// A client that takes and gives JSON texts.
#[derive(Debug)]
pub struct JsonClient {
    inner: Client,
}

impl View for JsonClient {
    type V = ClientView;

    closed spec fn view(&self) -> ClientView {
        self.inner@
    }
}

/// The client for a configuration in JSON.
pub open spec fn json_client_for(parsed: Option<JsonView>, roster: RosterView) -> Result<
    ClientView,
    ErrorView,
> {
    match config_of(parsed) {
        Ok(config) => client_for(config, roster),
        Err(error) => Err(error),
    }
}

/// The value of what making a client gives.
pub open spec fn made(r: Result<JsonClient, Error>) -> Result<ClientView, ErrorView> {
    match r {
        Ok(client) => Ok(client@),
        Err(error) => Err(error@),
    }
}

impl JsonClient {
    /// Makes a client from a configuration in JSON.
    pub fn new(config_json: &str) -> (r: Result<Self, Error>)
        ensures
            made(r) == json_client_for(json_of_text(config_json@), builtin_roster()),
    {
        JsonClient::from_parsed(Json::parse(config_json), Roster::builtin())
    }

    /// Makes a client, given the JSON that its configuration holds and the roster
    /// it routes by.
    pub fn from_parsed(parsed: Option<Json>, roster: Roster) -> (r: Result<Self, Error>)
        ensures
            made(r) == json_client_for(parsed.deep_view(), roster@),
    {
        let config = match ClientConfig::from_parsed(parsed) {
            Ok(config) => config,
            Err(error) => {
                return Err(error);
            },
        };
        match Client::new(config, roster) {
            Ok(inner) => Ok(JsonClient { inner }),
            Err(error) => Err(error),
        }
    }

    /// The call to make for a whole reply.
    pub fn chat_completions(&self, request_json: &str) -> (r: Result<Call, Error>)
        ensures
            outcome(r) == when_request(
                json_of_text(request_json@),
                |request: JsonView| whole_call(self@, request),
            ),
    {
        self.accept(Json::parse(request_json))
    }

    /// The call to make for a whole reply, given the JSON that the request holds.
    pub fn accept(&self, parsed: Option<Json>) -> (r: Result<Call, Error>)
        ensures
            outcome(r) == when_request(
                parsed.deep_view(),
                |request: JsonView| whole_call(self@, request),
            ),
    {
        match check_request(parsed) {
            Ok(request) => prepare_whole(&self.inner, &request),
            Err(error) => Err(error),
        }
    }

    /// The call to make for a streamed reply.
    pub fn chat_completions_stream(&self, request_json: &str) -> (r: Result<Call, Error>)
        ensures
            outcome(r) == when_request(
                json_of_text(request_json@),
                |request: JsonView| call_for(self@, streamed(request)),
            ),
    {
        self.accept_stream(Json::parse(request_json))
    }

    /// The call to make for a streamed reply, given the JSON that the request
    /// holds.
    pub fn accept_stream(&self, parsed: Option<Json>) -> (r: Result<Call, Error>)
        ensures
            outcome(r) == when_request(
                parsed.deep_view(),
                |request: JsonView| call_for(self@, streamed(request)),
            ),
    {
        match check_request(parsed) {
            Ok(request) => prepare_stream(&self.inner, &request),
            Err(error) => Err(error),
        }
    }
}

/// A document that names the model as the caller did.
pub open spec fn naming(document: JsonView, model: Seq<char>) -> JsonView {
    JsonView::Object(put(document.fields(), "model"@, string(model)))
}

fn name_model(document: Json, model: &String) -> (r: Json)
    ensures
        r@ == naming(document@, model@),
{
    let mut fields = document.fields();
    fields.put("model", Json::String(model.clone()));
    Json::Object(fields)
}

/// The reply to a call, as chat completions has it, or its failure. It names the
/// model as the caller did.
pub open spec fn reply_to(
    call: CallView,
    status: u16,
    body: Seq<char>,
    parsed: Option<JsonView>,
    retry_after: Option<u64>,
    request_id: Option<Seq<char>>,
) -> Result<JsonView, ErrorView> {
    match reply_in(
        call.protocol,
        call.provider,
        status,
        body,
        parsed,
        retry_after,
        request_id,
    ) {
        Ok(reply) => Ok(naming(rendered_response(reply, call.provider), call.model)),
        Err(error) => Err(error),
    }
}

/// Makes the reply to a call from the response to it.
pub fn reply(call: &Call, parts: ResponseParts) -> (r: Result<Json, Error>)
    ensures
        outcome(r) == reply_to(
            call@,
            parts.status,
            parts.body@,
            json_of_text(parts.body@),
            parts.retry_after,
            parts.request_id.deep_view(),
        ),
{
    match conclude(call.protocol, call.provider.as_str(), parts) {
        Ok(reply) => Ok(
            name_model(render_response(&reply, call.provider.as_str()), &call.model),
        ),
        Err(error) => Err(error),
    }
}

/// Makes the reply to a call, as a JSON text, from the response to it.
pub fn reply_text(call: &Call, parts: ResponseParts) -> (r: Result<String, Error>)
    ensures
        match r {
            Ok(text) => reply_to(
                call@,
                parts.status,
                parts.body@,
                json_of_text(parts.body@),
                parts.retry_after,
                parts.request_id.deep_view(),
            ) matches Ok(value) && text@ == text_of_json(value),
            Err(error) => reply_to(
                call@,
                parts.status,
                parts.body@,
                json_of_text(parts.body@),
                parts.retry_after,
                parts.request_id.deep_view(),
            ) == Err::<JsonView, ErrorView>(error@),
        },
{
    match reply(call, parts) {
        Ok(value) => Ok(value.to_text()),
        Err(error) => Err(error),
    }
}

// ---------------------------------------------------------------------------
// Streams
// ---------------------------------------------------------------------------

/// A streamed reply, as JSON texts of chat-completions chunks.
#[derive(Debug)]
pub struct JsonChatStream {
    model: String,
    provider: String,
    protocol: Protocol,
    inner: ChatChunkStream,
    ordinals: ToolCallOrdinals,
    ended: bool,
}

/// The value of a [`JsonChatStream`].
#[verifier::ext_equal]
pub struct JsonChatStreamView {
    /// The model, by the name the caller gave it.
    pub model: Seq<char>,
    pub provider: Seq<char>,
    pub protocol: Protocol,
    pub inner: ChatChunkStreamView,
    pub seen: Seq<(u32, u32)>,
    /// A failure was handed out.
    pub ended: bool,
}

impl View for JsonChatStream {
    type V = JsonChatStreamView;

    closed spec fn view(&self) -> JsonChatStreamView {
        JsonChatStreamView {
            model: self.model@,
            provider: self.provider@,
            protocol: self.protocol,
            inner: self.inner@,
            seen: self.ordinals@,
            ended: self.ended,
        }
    }
}

/// What one payload gives the caller, if anything, and the stream after it. A
/// failure ends the stream: nothing follows it.
pub open spec fn next_of(stream: JsonChatStreamView, parsed: Option<JsonView>) -> (
    Option<Result<JsonView, ErrorView>>,
    JsonChatStreamView,
) {
    if stream.ended {
        (None, stream)
    } else {
        let (given, after) = taken_in(stream, parsed);
        (given, JsonChatStreamView { ended: given matches Some(Err(_)), ..after })
    }
}

/// What a stream that goes on makes of one payload. Every chunk names the model as
/// the caller did.
pub open spec fn taken_in(stream: JsonChatStreamView, parsed: Option<JsonView>) -> (
    Option<Result<JsonView, ErrorView>>,
    JsonChatStreamView,
) {
    match parsed {
        None => (Some(Err(undecodable(stream.provider))), stream),
        Some(value) => match stream.protocol {
            Protocol::OpenAiCompat => if chunk_shape(value) {
                let (chunk, seen) = rendered_chunk(
                    ingested_chunk(value),
                    stream.provider,
                    stream.seen,
                );
                (Some(Ok(naming(chunk, stream.model))), JsonChatStreamView { seen, ..stream })
            } else {
                (Some(Err(undecodable(stream.provider))), stream)
            },
            Protocol::Anthropic => {
                let (given, inner) = stepped(stream.inner, value);
                match given {
                    Some(Ok(common)) => {
                        let (chunk, seen) = rendered_chunk(common, stream.provider, stream.seen);
                        (
                            Some(Ok(naming(chunk, stream.model))),
                            JsonChatStreamView { seen, inner, ..stream },
                        )
                    },
                    Some(Err(error)) => (
                        Some(Err(error)),
                        JsonChatStreamView { inner, ..stream },
                    ),
                    None => (None, JsonChatStreamView { inner, ..stream }),
                }
            },
        },
    }
}

/// The value of what a payload gives.
pub open spec fn handed(r: Option<Result<Json, Error>>) -> Option<Result<JsonView, ErrorView>> {
    match r {
        Some(Ok(value)) => Some(Ok(value@)),
        Some(Err(error)) => Some(Err(error@)),
        None => None,
    }
}

impl JsonChatStream {
    /// The start of the streamed reply to a call.
    pub fn new(call: &Call) -> (r: Self)
        ensures
            r@ == (JsonChatStreamView {
                model: call@.model,
                provider: call@.provider,
                protocol: call@.protocol,
                inner: ChatChunkStreamView {
                    provider: call@.provider,
                    state: fresh(call@.report_usage),
                },
                seen: Seq::empty(),
                ended: false,
            }),
    {
        JsonChatStream {
            model: call.model.clone(),
            provider: call.provider.clone(),
            protocol: call.protocol,
            inner: ChatChunkStream::new(call.provider.as_str(), call.report_usage),
            ordinals: ToolCallOrdinals::new(),
            ended: false,
        }
    }

    /// Whether a failure was handed out, and so the stream has ended.
    pub fn ended(&self) -> (r: bool)
        ensures
            r == self@.ended,
    {
        self.ended
    }

    /// Hands a failure of the transport out, which ends the stream; nothing where
    /// it has ended.
    pub fn fail(&mut self, error: Error) -> (r: Option<Error>)
        ensures
            r.deep_view() == (if old(self)@.ended {
                None
            } else {
                Some(error@)
            }),
            final(self)@ == (JsonChatStreamView { ended: true, ..old(self)@ }),
    {
        if self.ended {
            return None;
        }
        self.ended = true;
        Some(error)
    }

    fn undecodable(&self) -> (r: Error)
        ensures
            r@ == undecodable(self@.provider),
    {
        Error::Decode {
            provider: self.provider.clone(),
            cause: "not the document the protocol promises".to_owned(),
        }
    }

    /// Takes one payload in, given the JSON that it holds. Nothing means that the
    /// next payload is to be read, or that the stream has ended.
    pub fn step(&mut self, parsed: Option<Json>) -> (r: Option<Result<Json, Error>>)
        ensures
            (handed(r), final(self)@) == next_of(old(self)@, parsed.deep_view()),
    {
        if self.ended {
            return None;
        }
        let Some(value) = parsed else {
            self.ended = true;
            return Some(Err(self.undecodable()));
        };
        match self.protocol {
            Protocol::OpenAiCompat => {
                if !is_chunk(&value) {
                    self.ended = true;
                    return Some(Err(self.undecodable()));
                }
                let common = ingest_chunk(&value);
                let chunk = render_chunk(&common, self.provider.as_str(), &mut self.ordinals);
                Some(Ok(name_model(chunk, &self.model)))
            },
            Protocol::Anthropic => match self.inner.next(&value) {
                Some(Ok(common)) => {
                    let chunk = render_chunk(&common, self.provider.as_str(), &mut self.ordinals);
                    Some(Ok(name_model(chunk, &self.model)))
                },
                Some(Err(error)) => {
                    self.ended = true;
                    Some(Err(error))
                },
                None => None,
            },
        }
    }

    /// Takes one payload in, and gives a chunk as a JSON text. Nothing means that
    /// the next payload is to be read, or that the stream has ended.
    pub fn next(&mut self, payload: &str) -> (r: Option<Result<String, Error>>)
        ensures
            final(self)@ == next_of(old(self)@, json_of_text(payload@)).1,
            match r {
                Some(Ok(text)) => next_of(old(self)@, json_of_text(payload@)).0 matches Some(
                    Ok(value),
                ) && text@ == text_of_json(value),
                Some(Err(error)) => next_of(old(self)@, json_of_text(payload@)).0 matches Some(
                    Err(e),
                ) && error@ == e,
                None => next_of(old(self)@, json_of_text(payload@)).0 is None,
            },
    {
        match self.step(Json::parse(payload)) {
            Some(Ok(value)) => Some(Ok(value.to_text())),
            Some(Err(error)) => Some(Err(error)),
            None => None,
        }
    }
}

/// Every chunk names the model as the caller did.
pub proof fn law_every_chunk_names_the_callers_model(
    stream: JsonChatStreamView,
    parsed: Option<JsonView>,
)
    ensures
        next_of(stream, parsed).0 matches Some(Ok(chunk)) ==> chunk.str_at("model"@) == Some(
            stream.model,
        ),
        next_of(stream, parsed).1.model == stream.model,
{
    broadcast use crate::json::group_find;

}

/// Nothing follows a failure, whatever else comes.
pub proof fn law_nothing_follows_a_failure(
    stream: JsonChatStreamView,
    parsed: Option<JsonView>,
    later: Option<JsonView>,
)
    requires
        next_of(stream, parsed).0 matches Some(Err(_)),
    ensures
        next_of(next_of(stream, parsed).1, later) == (
            None::<Result<JsonView, ErrorView>>,
            next_of(stream, parsed).1,
        ),
{
}

// ---------------------------------------------------------------------------
// The balanced client
// ---------------------------------------------------------------------------

/// A client that spreads requests over candidates by weight.
#[derive(Debug)]
pub struct JsonBalancedClient {
    client: Client,
    balancer: Balancer,
}

/// The value of a [`JsonBalancedClient`].
#[verifier::ext_equal]
pub struct JsonBalancedClientView {
    pub client: ClientView,
    pub balancer: BalancerView,
}

impl View for JsonBalancedClient {
    type V = JsonBalancedClientView;

    closed spec fn view(&self) -> JsonBalancedClientView {
        JsonBalancedClientView { client: self.client@, balancer: self.balancer@ }
    }
}

/// A candidate: a model and a weight.
pub open spec fn candidate_of(entry: JsonView) -> Option<CandidateView> {
    match (entry.str_at("model"@), entry.u32_at("weight"@)) {
        (Some(model), Some(weight)) => Some(CandidateView { model, weight }),
        _ => None,
    }
}

/// Candidates that cannot be read.
pub open spec fn bad_candidates() -> ErrorView {
    ErrorView::InvalidInput("the candidates are not a list of models and weights"@)
}

/// Every entry is a candidate.
pub open spec fn all_candidates(items: Seq<JsonView>) -> bool {
    forall|i: int| 0 <= i < items.len() ==> candidate_of(#[trigger] items[i]) is Some
}

/// The candidates that a document lists.
pub open spec fn candidates_of(parsed: Option<JsonView>) -> Result<Seq<CandidateView>, ErrorView> {
    match parsed {
        Some(JsonView::Array(items)) => if all_candidates(items) {
            Ok(items.map_values(|item: JsonView| candidate_of(item)->0))
        } else {
            Err(bad_candidates())
        },
        _ => Err(bad_candidates()),
    }
}

fn refuse_candidates() -> (r: Error)
    ensures
        r@ == bad_candidates(),
{
    Error::InvalidInput("the candidates are not a list of models and weights".to_owned())
}

fn read_candidates(parsed: Option<Json>) -> (r: Result<Vec<Candidate>, Error>)
    ensures
        outcome(r) == candidates_of(parsed.deep_view()),
{
    let Some(Json::Array(items)) = parsed else {
        return Err(refuse_candidates());
    };
    let ghost all = crate::json::models(items@);
    let mut out: Vec<Candidate> = Vec::new();
    for i in 0..items.len()
        invariant
            all == crate::json::models(items@),
            parsed.deep_view() == Some(JsonView::Array(all)),
            out.len() == i,
            forall|k: int|
                0 <= k < i ==> candidate_of(#[trigger] all[k]) == Some(out@[k]@),
    {
        assert(all[i as int] == items@[i as int]@);
        match (items[i].str_at("model"), items[i].u32_at("weight")) {
            (Some(model), Some(weight)) => {
                out.push(Candidate { model, weight });
            },
            _ => {
                assert(candidate_of(all[i as int]) is None);
                return Err(refuse_candidates());
            },
        }
    }
    assert(all_candidates(all));
    assert(out.deep_view() =~= all.map_values(|item: JsonView| candidate_of(item)->0));
    Ok(out)
}

/// The first candidate whose model the roster does not hold.
pub open spec fn first_unregistered(
    candidates: Seq<CandidateView>,
    roster: RosterView,
) -> Option<Seq<char>>
    decreases candidates.len(),
{
    if candidates.len() == 0 {
        None
    } else if model_spec(roster, candidates[0].model) is None {
        Some(candidates[0].model)
    } else {
        first_unregistered(candidates.drop_first(), roster)
    }
}

fn check_registered(client: &Client, candidates: &Vec<Candidate>) -> (r: Result<(), Error>)
    ensures
        match first_unregistered(candidates.deep_view(), client@.roster) {
            Some(model) => r matches Err(e) && e@ == (ErrorView::InvalidModel { given: model }),
            None => r is Ok,
        },
{
    let ghost all = candidates.deep_view();
    assert(all.skip(0) =~= all);
    for i in 0..candidates.len()
        invariant
            all == candidates.deep_view(),
            first_unregistered(all, client@.roster) == first_unregistered(
                all.skip(i as int),
                client@.roster,
            ),
    {
        assert(all.skip(i as int).drop_first() =~= all.skip(i + 1));
        assert(all.skip(i as int)[0] == candidates@[i as int]@);
        match client.fetch_model(candidates[i].model.as_str()) {
            Ok(_) => {},
            Err(error) => {
                return Err(error);
            },
        }
    }
    Ok(())
}

/// The balanced client for a configuration and candidates in JSON. What is wrong
/// with the configuration is told before what is wrong with the candidates, and
/// their names before their weights.
pub open spec fn balanced_client_for(
    config: Option<JsonView>,
    candidates: Option<JsonView>,
    roster: RosterView,
) -> Result<JsonBalancedClientView, ErrorView> {
    match config_of(config) {
        Err(error) => Err(error),
        Ok(config) => match candidates_of(candidates) {
            Err(error) => Err(error),
            Ok(candidates) => if candidates.len() == 0 {
                Err(
                    ErrorView::InvalidInput("balanced client requires at least one candidate"@),
                )
            } else {
                match client_for(config, roster) {
                    Err(error) => Err(error),
                    Ok(client) => match first_unregistered(candidates, roster) {
                        Some(model) => Err(ErrorView::InvalidModel { given: model }),
                        None => match balancer_for(candidates) {
                            Err(error) => Err(error),
                            Ok(balancer) => Ok(JsonBalancedClientView { client, balancer }),
                        },
                    },
                }
            },
        },
    }
}

/// The value of what making a balanced client gives.
pub open spec fn made_balanced(r: Result<JsonBalancedClient, Error>) -> Result<
    JsonBalancedClientView,
    ErrorView,
> {
    match r {
        Ok(client) => Ok(client@),
        Err(error) => Err(error@),
    }
}

/// The request with the model whose turn it is.
pub open spec fn balanced(balancer: BalancerView, request: JsonView) -> JsonView {
    JsonView::Object(
        put(
            request.fields(),
            "model"@,
            string(balancer.candidates[turn_of(balancer) as int].model),
        ),
    )
}

/// Writes the model whose turn it is onto a request.
fn prepare_balanced(balancer: &mut Balancer, request: &Json) -> (r: Json)
    ensures
        turning(old(balancer)@),
        r@ == balanced(old(balancer)@, request@),
        final(balancer)@ == turned(old(balancer)@),
{
    let model = balancer.select();
    let mut fields = request.fields();
    fields.put("model", Json::String(model));
    Json::Object(fields)
}

/// The client after a request: its rotation goes on where the request was one,
/// and stays where it was not.
pub open spec fn after_request(
    client: JsonBalancedClientView,
    parsed: Option<JsonView>,
) -> JsonBalancedClientView {
    if request_of(parsed) is Ok {
        JsonBalancedClientView { balancer: turned(client.balancer), ..client }
    } else {
        client
    }
}

impl JsonBalancedClient {
    /// Makes a client from a configuration and candidates in JSON.
    pub fn new(config_json: &str, candidates_json: &str) -> (r: Result<Self, Error>)
        ensures
            made_balanced(r) == balanced_client_for(
                json_of_text(config_json@),
                json_of_text(candidates_json@),
                builtin_roster(),
            ),
    {
        JsonBalancedClient::from_parsed(
            Json::parse(config_json),
            Json::parse(candidates_json),
            Roster::builtin(),
        )
    }

    /// Makes a client, given the JSON of its configuration and its candidates, and
    /// the roster it routes by.
    pub fn from_parsed(config: Option<Json>, candidates: Option<Json>, roster: Roster) -> (r:
        Result<Self, Error>)
        ensures
            made_balanced(r) == balanced_client_for(
                config.deep_view(),
                candidates.deep_view(),
                roster@,
            ),
    {
        let config = match ClientConfig::from_parsed(config) {
            Ok(config) => config,
            Err(error) => {
                return Err(error);
            },
        };
        let candidates = match read_candidates(candidates) {
            Ok(candidates) => candidates,
            Err(error) => {
                return Err(error);
            },
        };
        if candidates.len() == 0 {
            return Err(
                Error::InvalidInput("balanced client requires at least one candidate".to_owned()),
            );
        }
        let client = match Client::new(config, roster) {
            Ok(client) => client,
            Err(error) => {
                return Err(error);
            },
        };
        match check_registered(&client, &candidates) {
            Ok(()) => {},
            Err(error) => {
                return Err(error);
            },
        }
        match Balancer::new(candidates) {
            Ok(balancer) => Ok(JsonBalancedClient { client, balancer }),
            Err(error) => Err(error),
        }
    }

    /// The call to make for a whole reply, to the model whose turn it is. A turn
    /// is taken before the request is refused for asking for a stream, and none
    /// where the request is not one.
    pub fn chat_completions(&mut self, request_json: &str) -> (r: Result<Call, Error>)
        ensures
            outcome(r) == when_request(
                json_of_text(request_json@),
                |request: JsonView|
                    whole_call(
                        old(self)@.client,
                        balanced(old(self)@.balancer, request),
                    ),
            ),
            final(self)@ == after_request(old(self)@, json_of_text(request_json@)),
    {
        self.accept(Json::parse(request_json))
    }

    /// The call to make for a whole reply, given the JSON that the request holds.
    pub fn accept(&mut self, parsed: Option<Json>) -> (r: Result<Call, Error>)
        ensures
            outcome(r) == when_request(
                parsed.deep_view(),
                |request: JsonView|
                    whole_call(
                        old(self)@.client,
                        balanced(old(self)@.balancer, request),
                    ),
            ),
            final(self)@ == after_request(old(self)@, parsed.deep_view()),
    {
        match check_request(parsed) {
            Ok(request) => {
                let request = prepare_balanced(&mut self.balancer, &request);
                prepare_whole(&self.client, &request)
            },
            Err(error) => Err(error),
        }
    }

    /// The call to make for a streamed reply, to the model whose turn it is.
    pub fn chat_completions_stream(&mut self, request_json: &str) -> (r: Result<Call, Error>)
        ensures
            outcome(r) == when_request(
                json_of_text(request_json@),
                |request: JsonView|
                    call_for(
                        old(self)@.client,
                        streamed(balanced(old(self)@.balancer, request)),
                    ),
            ),
            final(self)@ == after_request(old(self)@, json_of_text(request_json@)),
    {
        self.accept_stream(Json::parse(request_json))
    }

    /// The call to make for a streamed reply, given the JSON that the request
    /// holds.
    pub fn accept_stream(&mut self, parsed: Option<Json>) -> (r: Result<Call, Error>)
        ensures
            outcome(r) == when_request(
                parsed.deep_view(),
                |request: JsonView|
                    call_for(
                        old(self)@.client,
                        streamed(balanced(old(self)@.balancer, request)),
                    ),
            ),
            final(self)@ == after_request(old(self)@, parsed.deep_view()),
    {
        match check_request(parsed) {
            Ok(request) => {
                let request = prepare_balanced(&mut self.balancer, &request);
                prepare_stream(&self.client, &request)
            },
            Err(error) => Err(error),
        }
    }
}

/// A balanced request is the caller's own, but for its model, which is that of the
/// candidate whose turn it is; the rotation then goes on. What is no request takes no
/// turn.
pub proof fn law_a_balanced_request_asks_for_its_candidate(
    client: JsonBalancedClientView,
    request: JsonView,
    parsed: Option<JsonView>,
    key: Seq<char>,
)
    requires
        turning(client.balancer),
    ensures
        turn_of(client.balancer) < client.balancer.candidates.len(),
        balanced(client.balancer, request).get("model"@) == Some(
            JsonView::String(
                client.balancer.candidates[turn_of(client.balancer) as int].model,
            ),
        ),
        key != "model"@ ==> balanced(client.balancer, request).get(key) == request.get(key),
        after_request(client, parsed).client == client.client,
        request_of(parsed) is Ok ==> after_request(client, parsed).balancer == turned(
            client.balancer,
        ),
        request_of(parsed) is Err ==> after_request(client, parsed) == client,
{
    broadcast use group_find;

    law_no_turn_falls_to_weight_zero(client.balancer);
}

/// Candidates are read from a list in which each has a model and a weight, in the
/// order of the list; anything else is refused.
pub proof fn law_candidates_are_read_in_order(document: JsonView, items: Seq<JsonView>, i: int)
    ensures
        candidates_of(None) is Err,
        !(document is Array) ==> candidates_of(Some(document)) is Err,
        document == JsonView::Array(items) ==> match candidates_of(Some(document)) {
            Ok(candidates) => {
                &&& candidates.len() == items.len()
                &&& 0 <= i < items.len() ==> items[i].get("model"@) == Some(
                    JsonView::String(candidates[i].model),
                ) && items[i].get("weight"@) == Some(
                    JsonView::Number(
                        crate::json::NumberView::Unsigned(candidates[i].weight as u64),
                    ),
                )
            },
            Err(_) => exists|k: int|
                0 <= k < items.len() && !((#[trigger] items[k]).get("model"@) matches Some(
                    JsonView::String(_),
                ) && items[k].get("weight"@) matches Some(
                    JsonView::Number(crate::json::NumberView::Unsigned(n)),
                ) && n <= u32::MAX),
        },
{
    if candidates_of(Some(document)) is Ok && 0 <= i < items.len() && document == JsonView::Array(
        items,
    ) {
        assert(candidate_of(items[i]) is Some);
    }
}

/// A balanced client starts its rotation over the candidates as they were listed. All
/// of them are registered, and there is at least one.
pub proof fn law_a_balanced_client_rotates_over_its_candidates(
    config: Option<JsonView>,
    candidates: Option<JsonView>,
    roster: RosterView,
)
    ensures
        balanced_client_for(config, candidates, roster) matches Ok(client) ==> {
            &&& candidates_of(candidates) == Ok::<Seq<CandidateView>, ErrorView>(
                client.balancer.candidates,
            )
            &&& client.balancer.position == 0
            &&& client.balancer.candidates.len() > 0
            &&& json_client_for(config, roster) == Ok::<ClientView, ErrorView>(client.client)
            &&& forall|i: int|
                0 <= i < client.balancer.candidates.len() ==> model_spec(
                    roster,
                    (#[trigger] client.balancer.candidates[i]).model,
                ) is Some
        },
{
    if let Ok(client) = balanced_client_for(config, candidates, roster) {
        lemma_all_registered(client.balancer.candidates, roster);
    }
}

proof fn lemma_all_registered(candidates: Seq<CandidateView>, roster: RosterView)
    requires
        first_unregistered(candidates, roster) is None,
    ensures
        forall|i: int|
            0 <= i < candidates.len() ==> model_spec(roster, (#[trigger] candidates[i]).model)
                is Some,
    decreases candidates.len(),
{
    if candidates.len() > 0 {
        let rest = candidates.drop_first();
        lemma_all_registered(rest, roster);
        assert forall|i: int| 0 <= i < candidates.len() implies model_spec(
            roster,
            (#[trigger] candidates[i]).model,
        ) is Some by {
            if i > 0 {
                assert(rest[i - 1] == candidates[i]);
            }
        }
    }
}

} // verus!
