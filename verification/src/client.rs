//! A client: from a request to the call to make, and from the response to the
//! reply. The call itself is made elsewhere.
use vstd::prelude::*;

use crate::config::{find_stranger, first_stranger, ClientConfig, ClientConfigView};
use crate::config::{ProviderConfig, ProviderConfigView};
use crate::error::{outcome, Error, ErrorView};
use crate::gateway::anthropic;
use crate::gateway::openai_compat;
use crate::gateway::types::request::ChatRequestView;
use crate::gateway::types::response::{ChatResponse, ChatResponseView};
use crate::http::ResponseParts;
use crate::json::{Json, JsonView};
use crate::json_text::json_of_text;
use crate::registry::{model_spec, ModelSpec, ModelSpecView, Roster, RosterView};
use crate::text::{join3, same_text};
use crate::types::Protocol;

verus! {

/// A call to make to a provider.
#[derive(Debug, PartialEq)]
pub struct Call {
    /// The model, by the name the caller gave it.
    pub model: String,
    pub provider: String,
    pub protocol: Protocol,
    /// The key the configuration gives; the environment has it where none is.
    pub api_key: Option<String>,
    pub body: Json,
    /// Whether a stream is to end with token counts.
    pub report_usage: bool,
}

/// The value of a [`Call`].
#[verifier::ext_equal]
pub struct CallView {
    pub model: Seq<char>,
    pub provider: Seq<char>,
    pub protocol: Protocol,
    pub api_key: Option<Seq<char>>,
    pub body: JsonView,
    pub report_usage: bool,
}

impl View for Call {
    type V = CallView;

    open spec fn view(&self) -> CallView {
        CallView {
            model: self.model@,
            provider: self.provider@,
            protocol: self.protocol,
            api_key: self.api_key.deep_view(),
            body: self.body@,
            report_usage: self.report_usage,
        }
    }
}

impl DeepView for Call {
    type V = CallView;

    open spec fn deep_view(&self) -> CallView {
        self@
    }
}

/// A client.
#[derive(Debug, PartialEq)]
pub struct Client {
    pub config: ClientConfig,
    pub roster: Roster,
}

/// The value of a [`Client`].
#[verifier::ext_equal]
pub struct ClientView {
    pub config: ClientConfigView,
    pub roster: RosterView,
}

impl View for Client {
    type V = ClientView;

    open spec fn view(&self) -> ClientView {
        ClientView {
            config: self.config@,
            roster: self.roster@,
        }
    }
}

impl DeepView for Client {
    type V = ClientView;

    open spec fn deep_view(&self) -> ClientView {
        self@
    }
}

/// The provider is served: the configuration names it, or names none.
pub open spec fn serves(config: ClientConfigView, provider: Seq<char>) -> bool {
    match config.providers {
        Some(entries) => entry_of(entries, provider) is Some,
        None => true,
    }
}

/// The entry for a provider.
pub open spec fn entry_of(entries: Seq<ProviderConfigView>, provider: Seq<char>) -> Option<
    ProviderConfigView,
>
    decreases entries.len(),
{
    if entries.len() == 0 {
        None
    } else if entries[0].name == provider {
        Some(entries[0])
    } else {
        entry_of(entries.drop_first(), provider)
    }
}

/// The key the configuration gives for a provider.
pub open spec fn key_for(config: ClientConfigView, provider: Seq<char>) -> Option<Seq<char>> {
    match config.providers {
        Some(entries) => match entry_of(entries, provider) {
            Some(entry) => entry.api_key,
            None => None,
        },
        None => None,
    }
}

/// The client for a configuration; one that names a provider the roster does not
/// have is refused.
pub open spec fn client_for(config: ClientConfigView, roster: RosterView) -> Result<
    ClientView,
    ErrorView,
> {
    match config.providers {
        Some(entries) => match first_stranger(entries, roster) {
            Some(name) => Err(
                ErrorView::InvalidInput("provider '"@ + name + "' is not in the roster"@),
            ),
            None => Ok(ClientView { config, roster }),
        },
        None => Ok(ClientView { config, roster }),
    }
}

/// The common form rendered for the protocol its provider speaks.
pub open spec fn rendered_for(request: ChatRequestView, spec: ModelSpecView) -> Result<
    JsonView,
    ErrorView,
> {
    match spec.protocol {
        Protocol::OpenAiCompat => openai_compat::request::rendered_request(request, spec.provider),
        Protocol::Anthropic => anthropic::request::rendered_request(
            request,
            spec.provider,
            spec.max_output_tokens,
        ),
    }
}

/// The call that a request asks for: the roster is consulted first, then what
/// the client serves, then whether the provider has a form for the request.
pub open spec fn call_for(client: ClientView, request: JsonView) -> Result<
    CallView,
    ErrorView,
> {
    let config = client.config;
    let model = openai_compat::response::text_or_empty(request, "model"@);
    match model_spec(client.roster, model) {
        None => Err(ErrorView::InvalidModel { given: model }),
        Some(spec) => if !serves(config, spec.provider) {
            Err(ErrorView::ProviderNotDeclared { provider: spec.provider })
        } else {
            let common = openai_compat::request::ingested_request(request, spec.name);
            match rendered_for(common, spec) {
                Err(error) => Err(error),
                Ok(body) => Ok(
                    CallView {
                        model,
                        provider: spec.provider,
                        protocol: spec.protocol,
                        api_key: key_for(config, spec.provider),
                        body,
                        report_usage: common.stream_include_usage == Some(true),
                    },
                ),
            }
        },
    }
}

/// A status of success.
pub open spec fn succeeded(status: u16) -> bool {
    200 <= status <= 299
}

/// A response that is not what the protocol promises.
pub open spec fn undecodable(provider: Seq<char>) -> ErrorView {
    ErrorView::Decode { provider, cause: "not the document the protocol promises"@ }
}

/// The reply that a response carries, or the failure it reports, given the JSON
/// its body holds.
pub open spec fn reply_in(
    protocol: Protocol,
    provider: Seq<char>,
    status: u16,
    body: Seq<char>,
    parsed: Option<JsonView>,
    retry_after: Option<u64>,
    request_id: Option<Seq<char>>,
) -> Result<ChatResponseView, ErrorView> {
    match protocol {
        Protocol::OpenAiCompat => if !succeeded(status) {
            Err(
                openai_compat::error::reported(
                    provider,
                    status,
                    body,
                    parsed,
                    retry_after,
                    request_id,
                ),
            )
        } else if parsed matches Some(value) && openai_compat::wire::response_shape(value) {
            Ok(openai_compat::response::ingested_response(parsed->0))
        } else {
            Err(undecodable(provider))
        },
        Protocol::Anthropic => if !succeeded(status) {
            Err(
                anthropic::error::reported(
                    provider,
                    status,
                    body,
                    parsed,
                    retry_after,
                    request_id,
                ),
            )
        } else if parsed matches Some(value) && anthropic::wire::message_shape(value) {
            Ok(anthropic::response::ingested_response(parsed->0))
        } else {
            Err(undecodable(provider))
        },
    }
}

/// Reads the reply that a response carries, or the failure it reports, given the
/// JSON its body holds.
pub fn read_reply(
    protocol: Protocol,
    provider: &str,
    parts: ResponseParts,
    parsed: Option<Json>,
) -> (r: Result<ChatResponse, Error>)
    ensures
        outcome(r) == reply_in(
            protocol,
            provider@,
            parts.status,
            parts.body@,
            parsed.deep_view(),
            parts.retry_after,
            parts.request_id.deep_view(),
        ),
{
    let ResponseParts { status, body, retry_after, request_id } = parts;
    let success = 200 <= status && status <= 299;
    match protocol {
        Protocol::OpenAiCompat => {
            if !success {
                return Err(
                    openai_compat::error::error_from_parsed(
                        provider,
                        status,
                        body.as_str(),
                        parsed,
                        retry_after,
                        request_id,
                    ),
                );
            }
            if let Some(value) = &parsed {
                if openai_compat::wire::is_response(value) {
                    return Ok(openai_compat::response::ingest_response(value));
                }
            }
        },
        Protocol::Anthropic => {
            if !success {
                return Err(
                    anthropic::error::error_from_parsed(
                        provider,
                        status,
                        body.as_str(),
                        parsed,
                        retry_after,
                        request_id,
                    ),
                );
            }
            if let Some(value) = &parsed {
                if anthropic::wire::is_message(value) {
                    return Ok(anthropic::response::ingest_response(value));
                }
            }
        },
    }
    Err(
        Error::Decode {
            provider: provider.to_owned(),
            cause: "not the document the protocol promises".to_owned(),
        },
    )
}

/// Reads the reply that a response carries, or the failure it reports.
pub fn conclude(protocol: Protocol, provider: &str, parts: ResponseParts) -> (r: Result<
    ChatResponse,
    Error,
>)
    ensures
        outcome(r) == reply_in(
            protocol,
            provider@,
            parts.status,
            parts.body@,
            json_of_text(parts.body@),
            parts.retry_after,
            parts.request_id.deep_view(),
        ),
{
    let parsed = Json::parse(parts.body.as_str());
    read_reply(protocol, provider, parts, parsed)
}

impl Client {
    /// Makes a client. A configuration that names a provider the roster does not
    /// have is refused here, not when a request comes.
    pub fn new(config: ClientConfig, roster: Roster) -> (r: Result<Client, Error>)
        ensures
            outcome(r) == client_for(config@, roster@),
    {
        if let Some(entries) = &config.providers {
            if let Some(name) = find_stranger(entries, &roster) {
                return Err(
                    Error::InvalidInput(
                        join3("provider '", name.as_str(), "' is not in the roster"),
                    ),
                );
            }
        }
        Ok(Client { config, roster })
    }

    /// Finds a model of the roster.
    pub fn fetch_model(&self, model: &str) -> (r: Result<ModelSpec, Error>)
        ensures
            outcome(r) == (match model_spec(self@.roster, model@) {
                Some(spec) => Ok(spec),
                None => Err(ErrorView::InvalidModel { given: model@ }),
            }),
    {
        self.roster.fetch_model(model)
    }

    fn entry(&self, provider: &str) -> (r: Option<&ProviderConfig>)
        ensures
            r.deep_view() == (match self@.config.providers {
                Some(entries) => entry_of(entries, provider@),
                None => None,
            }),
    {
        let Some(entries) = &self.config.providers else {
            return None;
        };
        let ghost all = entries.deep_view();
        assert(all.skip(0) =~= all);
        for i in 0..entries.len()
            invariant
                all == entries.deep_view(),
                self@.config.providers == Some(all),
                entry_of(all, provider@) == entry_of(all.skip(i as int), provider@),
        {
            assert(all.skip(i as int).drop_first() =~= all.skip(i + 1));
            assert(all.skip(i as int)[0] == entries@[i as int]@);
            if same_text(entries[i].name.as_str(), provider) {
                return Some(&entries[i]);
            }
        }
        None
    }

    /// Prepares the call that a request asks for.
    pub fn prepare(&self, request: &Json) -> (r: Result<Call, Error>)
        ensures
            outcome(r) == call_for(self@, request@),
    {
        let model = openai_compat::response::str_or_empty(request, "model");
        let spec = match self.roster.fetch_model(model.as_str()) {
            Ok(spec) => spec,
            Err(error) => {
                return Err(error);
            },
        };
        let entry = self.entry(spec.provider.as_str());
        if self.config.providers.is_some() && entry.is_none() {
            return Err(Error::ProviderNotDeclared { provider: spec.provider });
        }
        let api_key: Option<String> = match entry {
            Some(entry) => match &entry.api_key {
                Some(key) => Some(key.clone()),
                None => None,
            },
            None => None,
        };
        let common = openai_compat::request::ingest_request(request, spec.name.as_str());
        let rendered = match spec.protocol {
            Protocol::OpenAiCompat => openai_compat::request::render_request(
                &common,
                spec.provider.as_str(),
            ),
            Protocol::Anthropic => anthropic::request::render_request(
                &common,
                spec.provider.as_str(),
                spec.max_output_tokens,
            ),
        };
        let report_usage = match common.stream_include_usage {
            Some(wanted) => wanted,
            None => false,
        };
        match rendered {
            Ok(body) => Ok(
                Call {
                    model,
                    provider: spec.provider,
                    protocol: spec.protocol,
                    api_key,
                    body,
                    report_usage,
                },
            ),
            Err(error) => Err(error),
        }
    }
}

/// A client never makes a call to a provider it does not serve, and never makes
/// one for a model the roster does not hold.
pub proof fn law_only_served_and_registered_models_are_called(
    client: ClientView,
    request: JsonView,
)
    ensures
        call_for(client, request) matches Ok(call) ==> {
            let model = openai_compat::response::text_or_empty(request, "model"@);
            &&& model_spec(client.roster, model) matches Some(spec) && spec.provider == call.provider
                && spec.protocol == call.protocol
            &&& serves(client.config, call.provider)
        },
{
}

} // verus!
