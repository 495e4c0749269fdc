//! How a client is configured.
use vstd::prelude::*;

use crate::error::{outcome, Error, ErrorView};
use crate::json::{Fields, FieldsView, Json, JsonView};
use crate::json_text::json_of_text;
use crate::registry::{provider_of, Roster, RosterView};
use crate::text::{join3, same_text};

verus! {

/// A provider that a client serves.
#[derive(Debug, PartialEq)]
pub struct ProviderConfig {
    pub name: String,
    /// The key to use; the environment has it where none is given.
    pub api_key: Option<String>,
}

/// The value of a [`ProviderConfig`].
#[verifier::ext_equal]
pub struct ProviderConfigView {
    pub name: Seq<char>,
    pub api_key: Option<Seq<char>>,
}

impl View for ProviderConfig {
    type V = ProviderConfigView;

    open spec fn view(&self) -> ProviderConfigView {
        ProviderConfigView {
            name: self.name@,
            api_key: self.api_key.deep_view(),
        }
    }
}

impl DeepView for ProviderConfig {
    type V = ProviderConfigView;

    open spec fn deep_view(&self) -> ProviderConfigView {
        self@
    }
}

/// The configuration of a client.
#[derive(Debug, PartialEq)]
pub struct ClientConfig {
    /// The providers to serve; all of the roster where none are named.
    pub providers: Option<Vec<ProviderConfig>>,
}

/// The value of a [`ClientConfig`].
#[verifier::ext_equal]
pub struct ClientConfigView {
    pub providers: Option<Seq<ProviderConfigView>>,
}

impl View for ClientConfig {
    type V = ClientConfigView;

    open spec fn view(&self) -> ClientConfigView {
        ClientConfigView {
            providers: self.providers.deep_view(),
        }
    }
}

impl DeepView for ClientConfig {
    type V = ClientConfigView;

    open spec fn deep_view(&self) -> ClientConfigView {
        self@
    }
}

/// The first field with a name other than this.
pub open spec fn first_other(fields: FieldsView, name: Seq<char>) -> Option<Seq<char>>
    decreases fields.len(),
{
    if fields.len() == 0 {
        None
    } else if fields[0].0 != name {
        Some(fields[0].0)
    } else {
        first_other(fields.drop_first(), name)
    }
}

fn find_other(fields: &Fields, name: &str) -> (r: Option<String>)
    ensures
        r.deep_view() == first_other(fields@, name@),
{
    let ghost all = fields@;
    assert(all.skip(0) =~= all);
    for i in 0..fields.entries.len()
        invariant
            all == fields@,
            first_other(all, name@) == first_other(all.skip(i as int), name@),
    {
        assert(all.skip(i as int).drop_first() =~= all.skip(i + 1));
        assert(all.skip(i as int)[0] == all[i as int]);
        if !same_text(fields.entries[i].0.as_str(), name) {
            return Some(fields.entries[i].0.clone());
        }
    }
    None
}

/// A field that nothing reads.
pub open spec fn unknown_field(name: Seq<char>) -> ErrorView {
    ErrorView::InvalidInput("unknown field '"@ + name + "' in the configuration"@)
}

fn refuse_field(name: &str) -> (r: Error)
    ensures
        r@ == unknown_field(name@),
{
    Error::InvalidInput(join3("unknown field '", name, "' in the configuration"))
}

/// Something in the configuration that is not what it has to be.
pub open spec fn malformed(name: Seq<char>) -> ErrorView {
    ErrorView::InvalidInput("'"@ + name + "' in the configuration is not of the right form"@)
}

fn refuse_form(name: &str) -> (r: Error)
    ensures
        r@ == malformed(name@),
{
    Error::InvalidInput(join3("'", name, "' in the configuration is not of the right form"))
}

/// The entry for a provider: an object that holds a key or nothing.
pub open spec fn provider_entry(name: Seq<char>, entry: JsonView) -> Result<
    ProviderConfigView,
    ErrorView,
> {
    if !(entry is Object) {
        Err(malformed(name))
    } else {
        match first_other(entry.fields(), "api_key"@) {
            Some(field) => Err(unknown_field(field)),
            None => match entry.get("api_key"@) {
                None => Ok(ProviderConfigView { name, api_key: None }),
                Some(JsonView::Null) => Ok(ProviderConfigView { name, api_key: None }),
                Some(JsonView::String(key)) => Ok(
                    ProviderConfigView { name, api_key: Some(key) },
                ),
                Some(_) => Err(malformed("api_key"@)),
            },
        }
    }
}

fn read_entry(name: &str, entry: &Json) -> (r: Result<ProviderConfig, Error>)
    ensures
        outcome(r) == provider_entry(name@, entry@),
{
    let Json::Object(fields) = entry else {
        return Err(refuse_form(name));
    };
    if let Some(field) = find_other(fields, "api_key") {
        return Err(refuse_field(field.as_str()));
    }
    match fields.get("api_key") {
        None | Some(Json::Null) => Ok(ProviderConfig { name: name.to_owned(), api_key: None }),
        Some(Json::String(key)) => Ok(
            ProviderConfig { name: name.to_owned(), api_key: Some(key.clone()) },
        ),
        Some(_) => Err(refuse_form("api_key")),
    }
}

/// The entries for several providers, or the first that cannot be read.
pub open spec fn provider_entries(fields: FieldsView) -> Result<
    Seq<ProviderConfigView>,
    ErrorView,
>
    decreases fields.len(),
{
    if fields.len() == 0 {
        Ok(Seq::empty())
    } else {
        match provider_entries(fields.drop_last()) {
            Ok(before) => match provider_entry(fields.last().0, fields.last().1) {
                Ok(entry) => Ok(before.push(entry)),
                Err(error) => Err(error),
            },
            Err(error) => Err(error),
        }
    }
}

proof fn lemma_entries_stop(fields: FieldsView, n: int)
    requires
        0 <= n <= fields.len(),
        provider_entries(fields.take(n)) is Err,
    ensures
        provider_entries(fields) == provider_entries(fields.take(n)),
    decreases fields.len(),
{
    if n == fields.len() {
        assert(fields.take(n) =~= fields);
    } else {
        assert(fields.drop_last().take(n) =~= fields.take(n));
        lemma_entries_stop(fields.drop_last(), n);
    }
}

fn read_entries(fields: &Fields) -> (r: Result<Vec<ProviderConfig>, Error>)
    ensures
        outcome(r) == provider_entries(fields@),
{
    let ghost all = fields@;
    let mut out: Vec<ProviderConfig> = Vec::new();
    assert(out.deep_view() =~= Seq::<ProviderConfigView>::empty());
    assert(all.take(0) =~= Seq::<(Seq<char>, JsonView)>::empty());
    for i in 0..fields.entries.len()
        invariant
            all == fields@,
            provider_entries(all.take(i as int)) == Ok::<Seq<ProviderConfigView>, ErrorView>(
                out.deep_view(),
            ),
    {
        let ghost here = all.take(i + 1);
        assert(here.drop_last() =~= all.take(i as int));
        assert(here.last() == all[i as int]);
        let ghost before = out.deep_view();
        match read_entry(fields.entries[i].0.as_str(), &fields.entries[i].1) {
            Ok(entry) => {
                out.push(entry);
                assert(out.deep_view() =~= before.push(entry@));
            },
            Err(error) => {
                proof {
                    lemma_entries_stop(all, i + 1);
                }
                return Err(error);
            },
        }
    }
    assert(all.take(all.len() as int) =~= all);
    Ok(out)
}

/// The configuration that a document holds.
pub open spec fn config_of(parsed: Option<JsonView>) -> Result<ClientConfigView, ErrorView> {
    match parsed {
        None => Err(ErrorView::InvalidInput("the configuration is not JSON"@)),
        Some(value) => if !(value is Object) {
            Err(ErrorView::InvalidInput("the configuration is not an object"@))
        } else {
            match first_other(value.fields(), "providers"@) {
                Some(field) => Err(unknown_field(field)),
                None => match value.get("providers"@) {
                    None => Ok(ClientConfigView { providers: None }),
                    Some(JsonView::Null) => Ok(ClientConfigView { providers: None }),
                    Some(JsonView::Object(fields)) => match provider_entries(fields) {
                        Ok(entries) => Ok(ClientConfigView { providers: Some(entries) }),
                        Err(error) => Err(error),
                    },
                    Some(_) => Err(malformed("providers"@)),
                },
            }
        },
    }
}

impl ClientConfig {
    /// Reads a configuration, given the JSON its text holds.
    pub fn from_parsed(parsed: Option<Json>) -> (r: Result<ClientConfig, Error>)
        ensures
            outcome(r) == config_of(parsed.deep_view()),
    {
        let Some(value) = parsed else {
            return Err(Error::InvalidInput("the configuration is not JSON".to_owned()));
        };
        let Json::Object(fields) = value else {
            return Err(Error::InvalidInput("the configuration is not an object".to_owned()));
        };
        if let Some(field) = find_other(&fields, "providers") {
            return Err(refuse_field(field.as_str()));
        }
        match fields.get("providers") {
            None | Some(Json::Null) => Ok(ClientConfig { providers: None }),
            Some(Json::Object(entries)) => match read_entries(entries) {
                Ok(entries) => Ok(ClientConfig { providers: Some(entries) }),
                Err(error) => Err(error),
            },
            Some(_) => Err(refuse_form("providers")),
        }
    }

    /// Reads a configuration.
    pub fn from_text(text: &str) -> (r: Result<ClientConfig, Error>)
        ensures
            outcome(r) == config_of(json_of_text(text@)),
    {
        ClientConfig::from_parsed(Json::parse(text))
    }
}

/// The first provider named that the roster does not have.
pub open spec fn first_stranger(
    providers: Seq<ProviderConfigView>,
    roster: RosterView,
) -> Option<Seq<char>>
    decreases providers.len(),
{
    if providers.len() == 0 {
        None
    } else if provider_of(roster, providers[0].name) is None {
        Some(providers[0].name)
    } else {
        first_stranger(providers.drop_first(), roster)
    }
}

/// Finds the first provider named that the roster does not have.
pub fn find_stranger(providers: &Vec<ProviderConfig>, roster: &Roster) -> (r: Option<String>)
    ensures
        r.deep_view() == first_stranger(providers.deep_view(), roster@),
{
    let ghost all = providers.deep_view();
    assert(all.skip(0) =~= all);
    for i in 0..providers.len()
        invariant
            all == providers.deep_view(),
            first_stranger(all, roster@) == first_stranger(all.skip(i as int), roster@),
    {
        assert(all.skip(i as int).drop_first() =~= all.skip(i + 1));
        assert(all.skip(i as int)[0] == providers@[i as int]@);
        if roster.provider(providers[i].name.as_str()).is_none() {
            return Some(providers[i].name.clone());
        }
    }
    None
}

/// Every field has this name.
pub open spec fn only_field(value: JsonView, name: Seq<char>) -> bool {
    forall|i: int| 0 <= i < value.fields().len() ==> (#[trigger] value.fields()[i]).0 == name
}

/// An entry for a provider: a key, or none.
pub open spec fn is_an_entry(entry: JsonView) -> bool {
    let key = entry.get("api_key"@);
    &&& entry is Object
    &&& only_field(entry, "api_key"@)
    &&& key is None || key->0 is Null || key->0 is String
}

proof fn lemma_other(fields: FieldsView, name: Seq<char>)
    ensures
        first_other(fields, name) is None <==> forall|i: int|
            0 <= i < fields.len() ==> (#[trigger] fields[i]).0 == name,
    decreases fields.len(),
{
    if fields.len() > 0 {
        let rest = fields.drop_first();
        lemma_other(rest, name);
        if fields[0].0 == name {
            if first_other(rest, name) is None {
                assert forall|i: int| 0 <= i < fields.len() implies (#[trigger] fields[i]).0
                    == name by {
                    if i > 0 {
                        assert(rest[i - 1] == fields[i]);
                    }
                }
            } else {
                let i = choose|i: int| 0 <= i < rest.len() && (#[trigger] rest[i]).0 != name;
                assert(fields[i + 1] == rest[i]);
            }
        }
    }
}

proof fn lemma_entries_read(fields: FieldsView)
    ensures
        provider_entries(fields) is Ok <==> forall|i: int|
            0 <= i < fields.len() ==> is_an_entry((#[trigger] fields[i]).1),
    decreases fields.len(),
{
    if fields.len() > 0 {
        let rest = fields.drop_last();
        let last = fields.last();
        lemma_entries_read(rest);
        lemma_other(last.1.fields(), "api_key"@);
        assert(fields[fields.len() - 1] == last);
        if provider_entries(rest) is Err {
            let i = choose|i: int| 0 <= i < rest.len() && !is_an_entry((#[trigger] rest[i]).1);
            assert(fields[i] == rest[i]);
        } else if is_an_entry(last.1) {
            assert forall|i: int| 0 <= i < fields.len() implies is_an_entry(
                (#[trigger] fields[i]).1,
            ) by {
                if i < rest.len() {
                    assert(rest[i] == fields[i]);
                }
            }
        }
    }
}

/// A document is a configuration exactly where it says nothing but which providers to
/// serve, and of each of them nothing but its key. Without providers all are served.
pub proof fn law_what_a_configuration_is(document: JsonView)
    ensures
        config_of(None) is Err,
        config_of(Some(document)) is Ok <==> {
            let providers = document.get("providers"@);
            &&& document is Object
            &&& only_field(document, "providers"@)
            &&& providers is None || providers->0 is Null || (providers->0 is Object && forall|
                i: int,
            |
                0 <= i < providers->0.fields().len() ==> is_an_entry(
                    (#[trigger] providers->0.fields()[i]).1,
                ))
        },
        config_of(Some(document)) matches Ok(config) ==> (config.providers is Some <==> (
        document.get("providers"@) matches Some(JsonView::Object(_)))),
{
    lemma_other(document.fields(), "providers"@);
    if let Some(JsonView::Object(fields)) = document.get("providers"@) {
        lemma_entries_read(fields);
        assert(document.get("providers"@)->0.fields() == fields);
    }
}

} // verus!
