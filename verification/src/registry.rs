//! The roster: which models there are, and which provider serves each.
use vstd::prelude::*;

use crate::error::{outcome, Error, ErrorView};
use crate::text::{halves, join3, same_text, split_once};
use crate::types::Protocol;

verus! {

/// An entry of the roster.
#[derive(Debug, PartialEq)]
pub struct ModelEntry {
    /// The whole name, `provider/name`.
    pub model: String,
    pub protocol: Protocol,
    /// The most the model puts out, where that is documented.
    pub max_output_tokens: Option<u32>,
}

/// The value of a [`ModelEntry`].
#[verifier::ext_equal]
pub struct ModelEntryView {
    pub model: Seq<char>,
    pub protocol: Protocol,
    pub max_output_tokens: Option<u32>,
}

impl View for ModelEntry {
    type V = ModelEntryView;

    open spec fn view(&self) -> ModelEntryView {
        ModelEntryView {
            model: self.model@,
            protocol: self.protocol,
            max_output_tokens: self.max_output_tokens,
        }
    }
}

impl DeepView for ModelEntry {
    type V = ModelEntryView;

    open spec fn deep_view(&self) -> ModelEntryView {
        self@
    }
}

/// A provider of the roster.
#[derive(Debug, PartialEq)]
pub struct ProviderEntry {
    pub name: String,
    pub protocol: Protocol,
}

/// The value of a [`ProviderEntry`].
#[verifier::ext_equal]
pub struct ProviderEntryView {
    pub name: Seq<char>,
    pub protocol: Protocol,
}

impl View for ProviderEntry {
    type V = ProviderEntryView;

    open spec fn view(&self) -> ProviderEntryView {
        ProviderEntryView { name: self.name@, protocol: self.protocol }
    }
}

impl DeepView for ProviderEntry {
    type V = ProviderEntryView;

    open spec fn deep_view(&self) -> ProviderEntryView {
        self@
    }
}

/// What the roster says of a model.
#[derive(Debug, PartialEq)]
pub struct ModelSpec {
    pub provider: String,
    /// The model's name within its provider.
    pub name: String,
    pub protocol: Protocol,
    pub max_output_tokens: Option<u32>,
}

/// The value of a [`ModelSpec`].
#[verifier::ext_equal]
pub struct ModelSpecView {
    pub provider: Seq<char>,
    pub name: Seq<char>,
    pub protocol: Protocol,
    pub max_output_tokens: Option<u32>,
}

impl View for ModelSpec {
    type V = ModelSpecView;

    open spec fn view(&self) -> ModelSpecView {
        ModelSpecView {
            provider: self.provider@,
            name: self.name@,
            protocol: self.protocol,
            max_output_tokens: self.max_output_tokens,
        }
    }
}

impl DeepView for ModelSpec {
    type V = ModelSpecView;

    open spec fn deep_view(&self) -> ModelSpecView {
        self@
    }
}

/// The models that requests can go to.
#[derive(Debug, PartialEq)]
pub struct Roster {
    /// Providers that are there whether or not a model of theirs is.
    pub providers: Vec<ProviderEntry>,
    pub entries: Vec<ModelEntry>,
}

/// The value of a [`Roster`].
#[verifier::ext_equal]
pub struct RosterView {
    pub providers: Seq<ProviderEntryView>,
    pub entries: Seq<ModelEntryView>,
}

impl View for Roster {
    type V = RosterView;

    open spec fn view(&self) -> RosterView {
        RosterView {
            providers: self.providers.deep_view(),
            entries: self.entries.deep_view(),
        }
    }
}

impl DeepView for Roster {
    type V = RosterView;

    open spec fn deep_view(&self) -> RosterView {
        self@
    }
}

/// The provider and the name within it of a whole model name. Both are there.
pub open spec fn name_parts(model: Seq<char>) -> Option<(Seq<char>, Seq<char>)> {
    match halves(model, "/"@) {
        Some((provider, name)) => if provider.len() > 0 && name.len() > 0 {
            Some((provider, name))
        } else {
            None
        },
        None => None,
    }
}

fn split_name(model: &str) -> (r: Option<(String, String)>)
    ensures
        r.deep_view() == name_parts(model@),
{
    match split_once(model, "/") {
        Some((provider, name)) => if provider.as_str().is_empty() || name.as_str().is_empty() {
            None
        } else {
            Some((provider, name))
        },
        None => None,
    }
}

/// A model belongs to a provider.
pub open spec fn belongs(model: Seq<char>, provider: Seq<char>) -> bool {
    match name_parts(model) {
        Some((of, _)) => of == provider,
        None => false,
    }
}

fn is_of(model: &str, provider: &str) -> (r: bool)
    ensures
        r == belongs(model@, provider@),
{
    match split_name(model) {
        Some((of, _)) => same_text(of.as_str(), provider),
        None => false,
    }
}

/// The entry for a whole model name.
pub open spec fn entry_for(entries: Seq<ModelEntryView>, model: Seq<char>) -> Option<ModelEntryView>
    decreases entries.len(),
{
    if entries.len() == 0 {
        None
    } else if entries[0].model == model {
        Some(entries[0])
    } else {
        entry_for(entries.drop_first(), model)
    }
}

/// The protocol of a provider: that of the first of its models.
pub open spec fn protocol_of(entries: Seq<ModelEntryView>, provider: Seq<char>) -> Option<Protocol>
    decreases entries.len(),
{
    if entries.len() == 0 {
        None
    } else if belongs(entries[0].model, provider) {
        Some(entries[0].protocol)
    } else {
        protocol_of(entries.drop_first(), provider)
    }
}

/// The protocol of a provider that is listed by its name.
pub open spec fn listed_protocol(
    providers: Seq<ProviderEntryView>,
    name: Seq<char>,
) -> Option<Protocol>
    decreases providers.len(),
{
    if providers.len() == 0 {
        None
    } else if providers[0].name == name {
        Some(providers[0].protocol)
    } else {
        listed_protocol(providers.drop_first(), name)
    }
}

/// The protocol of a provider of the roster: one that is listed, or that has a
/// model.
pub open spec fn provider_of(roster: RosterView, name: Seq<char>) -> Option<Protocol> {
    match listed_protocol(roster.providers, name) {
        Some(protocol) => Some(protocol),
        None => protocol_of(roster.entries, name),
    }
}

/// What the roster says of a model. A name is matched whole.
pub open spec fn model_spec(roster: RosterView, model: Seq<char>) -> Option<ModelSpecView> {
    match (entry_for(roster.entries, model), name_parts(model)) {
        (Some(entry), Some((provider, name))) => Some(
            ModelSpecView {
                provider,
                name,
                protocol: entry.protocol,
                max_output_tokens: entry.max_output_tokens,
            },
        ),
        _ => None,
    }
}

/// The first entry that names no provider or no model.
pub open spec fn first_nameless(entries: Seq<ModelEntryView>) -> Option<Seq<char>>
    decreases entries.len(),
{
    if entries.len() == 0 {
        None
    } else if name_parts(entries[0].model) is None {
        Some(entries[0].model)
    } else {
        first_nameless(entries.drop_first())
    }
}

/// An entry that cannot be used.
pub open spec fn nameless(model: Seq<char>) -> ErrorView {
    ErrorView::InvalidRoster("'"@ + model + "' is not of the form provider/model"@)
}

/// The entries of providers that another roster does not have.
pub open spec fn untouched(entries: Seq<ModelEntryView>, over: RosterView) -> Seq<ModelEntryView>
    decreases entries.len(),
{
    if entries.len() == 0 {
        Seq::empty()
    } else {
        let before = untouched(entries.drop_last(), over);
        if replaced(entries.last().model, over) {
            before
        } else {
            before.push(entries.last())
        }
    }
}

/// Another roster has the model's provider, and so replaces it.
pub open spec fn replaced(model: Seq<char>, over: RosterView) -> bool {
    match name_parts(model) {
        Some((provider, _)) => provider_of(over, provider) is Some,
        None => false,
    }
}

/// The providers that another roster does not have.
pub open spec fn untouched_providers(
    providers: Seq<ProviderEntryView>,
    over: RosterView,
) -> Seq<ProviderEntryView>
    decreases providers.len(),
{
    if providers.len() == 0 {
        Seq::empty()
    } else {
        let before = untouched_providers(providers.drop_last(), over);
        if provider_of(over, providers.last().name) is Some {
            before
        } else {
            before.push(providers.last())
        }
    }
}

/// One roster over another: a provider of the one replaces that of the other
/// whole.
pub open spec fn roster_over(base: RosterView, over: RosterView) -> RosterView {
    RosterView {
        providers: untouched_providers(base.providers, over) + over.providers,
        entries: untouched(base.entries, over) + over.entries,
    }
}

fn entry(model: &str) -> (r: ModelEntry)
    ensures
        r@ == (ModelEntryView {
            model: model@,
            protocol: Protocol::OpenAiCompat,
            max_output_tokens: None,
        }),
{
    ModelEntry {
        model: model.to_owned(),
        protocol: Protocol::OpenAiCompat,
        max_output_tokens: None,
    }
}

fn host(name: &str) -> (r: ProviderEntry)
    ensures
        r@ == builtin_provider(name@),
{
    ProviderEntry { name: name.to_owned(), protocol: Protocol::OpenAiCompat }
}

/// A provider of the roster that comes with the library.
pub open spec fn builtin_provider(name: Seq<char>) -> ProviderEntryView {
    ProviderEntryView { name, protocol: Protocol::OpenAiCompat }
}

/// An entry of the roster that comes with the library.
pub open spec fn builtin_entry(model: Seq<char>) -> ModelEntryView {
    ModelEntryView { model, protocol: Protocol::OpenAiCompat, max_output_tokens: None }
}

/// The roster that comes with the library. What a provider there serves without
/// being listed is for another roster to add.
pub open spec fn builtin_roster() -> RosterView {
    RosterView {
        providers: seq![
            builtin_provider("openai"@),
            builtin_provider("deepseek"@),
            builtin_provider("kimi"@),
            builtin_provider("opencode"@),
            builtin_provider("openrouter"@),
        ],
        entries: seq![
            builtin_entry("openai/gpt-5-nano"@),
            builtin_entry("openai/gpt-5.6"@),
            builtin_entry("deepseek/deepseek-v4-flash"@),
            builtin_entry("kimi/kimi-k3"@),
            builtin_entry("opencode/glm-5.2"@),
        ],
    }
}

impl Roster {
    /// The roster that comes with the library.
    pub fn builtin() -> (r: Roster)
        ensures
            r@ == builtin_roster(),
    {
        let r = Roster {
            providers: vec![
                host("openai"),
                host("deepseek"),
                host("kimi"),
                host("opencode"),
                host("openrouter"),
            ],
            entries: vec![
                entry("openai/gpt-5-nano"),
                entry("openai/gpt-5.6"),
                entry("deepseek/deepseek-v4-flash"),
                entry("kimi/kimi-k3"),
                entry("opencode/glm-5.2"),
            ],
        };
        assert(r@.providers =~= builtin_roster().providers);
        assert(r@.entries =~= builtin_roster().entries);
        r
    }

    /// A roster of these entries. One that names no provider or no model is
    /// refused.
    pub fn new(entries: Vec<ModelEntry>) -> (r: Result<Roster, Error>)
        ensures
            outcome(r) == (match first_nameless(entries.deep_view()) {
                Some(model) => Err(nameless(model)),
                None => Ok(RosterView { providers: Seq::empty(), entries: entries.deep_view() }),
            }),
    {
        let ghost all = entries.deep_view();
        assert(all.skip(0) =~= all);
        for i in 0..entries.len()
            invariant
                all == entries.deep_view(),
                first_nameless(all) == first_nameless(all.skip(i as int)),
        {
            assert(all.skip(i as int).drop_first() =~= all.skip(i + 1));
            assert(all.skip(i as int)[0] == entries@[i as int]@);
            if split_name(entries[i].model.as_str()).is_none() {
                return Err(
                    Error::InvalidRoster(
                        join3(
                            "'",
                            entries[i].model.as_str(),
                            "' is not of the form provider/model",
                        ),
                    ),
                );
            }
        }
        let r = Roster { providers: Vec::new(), entries };
        assert(r@.providers =~= Seq::<ProviderEntryView>::empty());
        Ok(r)
    }

    /// Finds the protocol a provider speaks, where the roster has the provider.
    pub fn provider(&self, name: &str) -> (r: Option<Protocol>)
        ensures
            r == provider_of(self@, name@),
    {
        let ghost hosts = self@.providers;
        assert(hosts.skip(0) =~= hosts);
        for i in 0..self.providers.len()
            invariant
                hosts == self@.providers,
                listed_protocol(hosts, name@) == listed_protocol(hosts.skip(i as int), name@),
        {
            assert(hosts.skip(i as int).drop_first() =~= hosts.skip(i + 1));
            assert(hosts.skip(i as int)[0] == self.providers@[i as int]@);
            if same_text(self.providers[i].name.as_str(), name) {
                return Some(self.providers[i].protocol);
            }
        }
        let ghost all = self@.entries;
        assert(all.skip(0) =~= all);
        for i in 0..self.entries.len()
            invariant
                all == self@.entries,
                listed_protocol(self@.providers, name@) is None,
                protocol_of(all, name@) == protocol_of(all.skip(i as int), name@),
        {
            assert(all.skip(i as int).drop_first() =~= all.skip(i + 1));
            assert(all.skip(i as int)[0] == self.entries@[i as int]@);
            if is_of(self.entries[i].model.as_str(), name) {
                return Some(self.entries[i].protocol);
            }
        }
        None
    }

    /// Finds a model. A name the roster does not hold is an error, not a guess.
    pub fn fetch_model(&self, model: &str) -> (r: Result<ModelSpec, Error>)
        ensures
            outcome(r) == (match model_spec(self@, model@) {
                Some(spec) => Ok(spec),
                None => Err(ErrorView::InvalidModel { given: model@ }),
            }),
    {
        let ghost all = self@.entries;
        assert(all.skip(0) =~= all);
        for i in 0..self.entries.len()
            invariant
                all == self@.entries,
                entry_for(all, model@) == entry_for(all.skip(i as int), model@),
        {
            assert(all.skip(i as int).drop_first() =~= all.skip(i + 1));
            assert(all.skip(i as int)[0] == self.entries@[i as int]@);
            if same_text(self.entries[i].model.as_str(), model) {
                return match split_name(model) {
                    Some((provider, name)) => Ok(
                        ModelSpec {
                            provider,
                            name,
                            protocol: self.entries[i].protocol,
                            max_output_tokens: self.entries[i].max_output_tokens,
                        },
                    ),
                    None => Err(Error::InvalidModel { given: model.to_owned() }),
                };
            }
        }
        Err(Error::InvalidModel { given: model.to_owned() })
    }

    /// Puts another roster over this one. A provider that both have is replaced
    /// whole; the others stay as they were.
    pub fn merged(self, over: Roster) -> (r: Roster)
        ensures
            r@ == roster_over(self@, over@),
    {
        let ghost all = self@.entries;
        let mut out: Vec<ModelEntry> = Vec::new();
        assert(out.deep_view() =~= Seq::<ModelEntryView>::empty());
        for i in 0..self.entries.len()
            invariant
                all == self@.entries,
                out.deep_view() == untouched(all.take(i as int), over@),
        {
            let ghost here = all.take(i + 1);
            let ghost before = out.deep_view();
            assert(here.drop_last() =~= all.take(i as int));
            assert(here.last() == self.entries@[i as int]@);
            let kept = &self.entries[i];
            let gone = match split_name(kept.model.as_str()) {
                Some((provider, _)) => over.provider(provider.as_str()).is_some(),
                None => false,
            };
            if !gone {
                out.push(
                    ModelEntry {
                        model: kept.model.clone(),
                        protocol: kept.protocol,
                        max_output_tokens: kept.max_output_tokens,
                    },
                );
                assert(out.deep_view() =~= before.push(out@.last()@));
            }
        }
        assert(all.take(all.len() as int) =~= all);
        let ghost hosts = self@.providers;
        let mut providers: Vec<ProviderEntry> = Vec::new();
        assert(providers.deep_view() =~= Seq::<ProviderEntryView>::empty());
        for i in 0..self.providers.len()
            invariant
                hosts == self@.providers,
                providers.deep_view() == untouched_providers(hosts.take(i as int), over@),
        {
            let ghost here = hosts.take(i + 1);
            let ghost before = providers.deep_view();
            assert(here.drop_last() =~= hosts.take(i as int));
            assert(here.last() == self.providers@[i as int]@);
            let kept = &self.providers[i];
            if over.provider(kept.name.as_str()).is_none() {
                providers.push(ProviderEntry { name: kept.name.clone(), protocol: kept.protocol });
                assert(providers.deep_view() =~= before.push(providers@.last()@));
            }
        }
        assert(hosts.take(hosts.len() as int) =~= hosts);
        let ghost before = out.deep_view();
        let ghost named = providers.deep_view();
        let Roster { providers: mut hosts, entries: mut more } = over;
        out.append(&mut more);
        providers.append(&mut hosts);
        assert(out.deep_view() =~= before + over@.entries);
        assert(providers.deep_view() =~= named + over@.providers);
        Roster { providers, entries: out }
    }
}

proof fn lemma_entry_concat(a: Seq<ModelEntryView>, b: Seq<ModelEntryView>, model: Seq<char>)
    ensures
        entry_for(a + b, model) == match entry_for(a, model) {
            Some(entry) => Some(entry),
            None => entry_for(b, model),
        },
    decreases a.len(),
{
    if a.len() == 0 {
        assert(a + b =~= b);
    } else {
        assert((a + b)[0] == a[0]);
        assert((a + b).drop_first() =~= a.drop_first() + b);
        lemma_entry_concat(a.drop_first(), b, model);
    }
}

proof fn lemma_untouched(
    entries: Seq<ModelEntryView>,
    over: RosterView,
    model: Seq<char>,
)
    ensures
        entry_for(untouched(entries, over), model) == if replaced(model, over) {
            None
        } else {
            entry_for(entries, model)
        },
    decreases entries.len(),
{
    if entries.len() > 0 {
        let rest = entries.drop_last();
        let last = entries.last();
        lemma_untouched(rest, over, model);
        assert(entries =~= rest + seq![last]);
        lemma_entry_concat(rest, seq![last], model);
        let before = untouched(rest, over);
        lemma_entry_concat(before, seq![last], model);
        assert(before.push(last) =~= before + seq![last]);
        assert(seq![last].drop_first() =~= Seq::<ModelEntryView>::empty());
        assert(entry_for(seq![last].drop_first(), model) is None);
        assert(entry_for(seq![last], model) == if last.model == model {
            Some(last)
        } else {
            None
        });
    }
}

proof fn lemma_no_entry(entries: Seq<ModelEntryView>, model: Seq<char>)
    requires
        name_parts(model) matches Some((provider, _)) ==> protocol_of(entries, provider) is None,
        name_parts(model) is Some,
    ensures
        entry_for(entries, model) is None,
    decreases entries.len(),
{
    if entries.len() > 0 {
        lemma_no_entry(entries.drop_first(), model);
    }
}

/// A roster put over another leaves the providers it does not have exactly where
/// they were, and replaces whole those it has.
pub proof fn law_a_roster_replaces_whole_providers(
    base: RosterView,
    over: RosterView,
    model: Seq<char>,
)
    requires
        name_parts(model) is Some,
    ensures
        model_spec(roster_over(base, over), model) == if replaced(model, over) {
            model_spec(over, model)
        } else {
            model_spec(base, model)
        },
{
    lemma_entry_concat(untouched(base.entries, over), over.entries, model);
    lemma_untouched(base.entries, over, model);
    if !replaced(model, over) {
        lemma_no_entry(over.entries, model);
    }
}

proof fn lemma_protocol_concat(a: Seq<ModelEntryView>, b: Seq<ModelEntryView>, name: Seq<char>)
    ensures
        protocol_of(a + b, name) == match protocol_of(a, name) {
            Some(protocol) => Some(protocol),
            None => protocol_of(b, name),
        },
    decreases a.len(),
{
    if a.len() == 0 {
        assert(a + b =~= b);
    } else {
        assert((a + b)[0] == a[0]);
        assert((a + b).drop_first() =~= a.drop_first() + b);
        lemma_protocol_concat(a.drop_first(), b, name);
    }
}

proof fn lemma_listed_concat(
    a: Seq<ProviderEntryView>,
    b: Seq<ProviderEntryView>,
    name: Seq<char>,
)
    ensures
        listed_protocol(a + b, name) == match listed_protocol(a, name) {
            Some(protocol) => Some(protocol),
            None => listed_protocol(b, name),
        },
    decreases a.len(),
{
    if a.len() == 0 {
        assert(a + b =~= b);
    } else {
        assert((a + b)[0] == a[0]);
        assert((a + b).drop_first() =~= a.drop_first() + b);
        lemma_listed_concat(a.drop_first(), b, name);
    }
}

proof fn lemma_protocol_untouched(
    entries: Seq<ModelEntryView>,
    over: RosterView,
    name: Seq<char>,
)
    ensures
        protocol_of(untouched(entries, over), name) == if provider_of(over, name) is Some {
            None
        } else {
            protocol_of(entries, name)
        },
    decreases entries.len(),
{
    if entries.len() > 0 {
        let rest = entries.drop_last();
        let last = entries.last();
        lemma_protocol_untouched(rest, over, name);
        assert(entries =~= rest + seq![last]);
        lemma_protocol_concat(rest, seq![last], name);
        let before = untouched(rest, over);
        lemma_protocol_concat(before, seq![last], name);
        assert(before.push(last) =~= before + seq![last]);
        assert(seq![last].drop_first() =~= Seq::<ModelEntryView>::empty());
        assert(protocol_of(seq![last].drop_first(), name) is None);
        assert(seq![last][0] == last);
    }
}

proof fn lemma_listed_untouched(
    providers: Seq<ProviderEntryView>,
    over: RosterView,
    name: Seq<char>,
)
    ensures
        listed_protocol(untouched_providers(providers, over), name) == if provider_of(over, name)
            is Some {
            None
        } else {
            listed_protocol(providers, name)
        },
    decreases providers.len(),
{
    if providers.len() > 0 {
        let rest = providers.drop_last();
        let last = providers.last();
        lemma_listed_untouched(rest, over, name);
        assert(providers =~= rest + seq![last]);
        lemma_listed_concat(rest, seq![last], name);
        let before = untouched_providers(rest, over);
        lemma_listed_concat(before, seq![last], name);
        assert(before.push(last) =~= before + seq![last]);
        assert(seq![last].drop_first() =~= Seq::<ProviderEntryView>::empty());
        assert(listed_protocol(seq![last].drop_first(), name) is None);
        assert(seq![last][0] == last);
    }
}

/// A roster put over another has the providers of both; one that both have speaks
/// what the upper one says.
pub proof fn law_a_roster_has_the_providers_of_both(
    base: RosterView,
    over: RosterView,
    name: Seq<char>,
)
    ensures
        provider_of(roster_over(base, over), name) == match provider_of(over, name) {
            Some(protocol) => Some(protocol),
            None => provider_of(base, name),
        },
{
    lemma_listed_concat(untouched_providers(base.providers, over), over.providers, name);
    lemma_listed_untouched(base.providers, over, name);
    lemma_protocol_concat(untouched(base.entries, over), over.entries, name);
    lemma_protocol_untouched(base.entries, over, name);
}

/// The roster that comes with the library has these models, each of a provider that
/// speaks chat completions, and no other.
pub proof fn law_what_the_builtin_roster_holds(model: Seq<char>)
    ensures
        model == "openai/gpt-5-nano"@ || model == "openai/gpt-5.6"@ || model
            == "deepseek/deepseek-v4-flash"@ || model == "kimi/kimi-k3"@ || model
            == "opencode/glm-5.2"@ ==> exists|i: int|
            0 <= i < builtin_roster().entries.len() && (#[trigger] builtin_roster().entries[i]).model
                == model,
        forall|i: int|
            0 <= i < builtin_roster().entries.len() ==> (#[trigger] builtin_roster().entries[i]).protocol
                == Protocol::OpenAiCompat && builtin_roster().entries[i].max_output_tokens is None,
        builtin_roster().entries.len() == 5,
        forall|i: int|
            0 <= i < builtin_roster().providers.len() ==> (
            #[trigger] builtin_roster().providers[i]).protocol == Protocol::OpenAiCompat,
        provider_of(builtin_roster(), "openai"@) == Some(Protocol::OpenAiCompat),
        provider_of(builtin_roster(), "deepseek"@) == Some(Protocol::OpenAiCompat),
        provider_of(builtin_roster(), "kimi"@) == Some(Protocol::OpenAiCompat),
        provider_of(builtin_roster(), "opencode"@) == Some(Protocol::OpenAiCompat),
        provider_of(builtin_roster(), "openrouter"@) == Some(Protocol::OpenAiCompat),
{
    let roster = builtin_roster();
    assert(roster.entries[0].model == "openai/gpt-5-nano"@);
    assert(roster.entries[1].model == "openai/gpt-5.6"@);
    assert(roster.entries[2].model == "deepseek/deepseek-v4-flash"@);
    assert(roster.entries[3].model == "kimi/kimi-k3"@);
    assert(roster.entries[4].model == "opencode/glm-5.2"@);
    lemma_listed(roster.providers, 0);
    lemma_listed(roster.providers, 1);
    lemma_listed(roster.providers, 2);
    lemma_listed(roster.providers, 3);
    lemma_listed(roster.providers, 4);
}

proof fn lemma_listed(providers: Seq<ProviderEntryView>, i: int)
    requires
        0 <= i < providers.len(),
        forall|j: int|
            0 <= j < providers.len() ==> (#[trigger] providers[j]).protocol
                == Protocol::OpenAiCompat,
    ensures
        listed_protocol(providers, providers[i].name) == Some(Protocol::OpenAiCompat),
    decreases providers.len(),
{
    assert(providers[0].protocol == Protocol::OpenAiCompat);
    if i > 0 && providers[0].name != providers[i].name {
        let rest = providers.drop_first();
        assert(rest[i - 1] == providers[i]);
        assert forall|j: int| 0 <= j < rest.len() implies (#[trigger] rest[j]).protocol
            == Protocol::OpenAiCompat by {
            assert(rest[j] == providers[j + 1]);
        }
        lemma_listed(rest, i - 1);
    }
}

/// A whole name is a provider, a slash and a name within it, cut at the first slash,
/// and neither part is empty.
pub proof fn law_a_name_is_cut_at_the_first_slash(
    model: Seq<char>,
    provider: Seq<char>,
    name: Seq<char>,
)
    ensures
        name_parts(model) == Some((provider, name)) <==> model == provider + "/"@ + name
            && provider.len() > 0 && name.len() > 0 && !provider.contains('/'),
{
    reveal_strlit("/");
    crate::text::law_halves_meet_at_the_first_pattern(model, "/"@);
    if name_parts(model) == Some((provider, name)) {
        if provider.contains('/') {
            let k = choose|k: int| 0 <= k < provider.len() && provider[k] == '/';
            assert(model.subrange(k, k + 1) =~= "/"@);
        }
    }
    if model == provider + "/"@ + name && provider.len() > 0 && name.len() > 0
        && !provider.contains('/') {
        let n = provider.len() as int;
        assert(model.subrange(n, n + 1) =~= "/"@);
        if let Some((left, right)) = halves(model, "/"@) {
            if left.len() < n {
                assert(model[left.len() as int] == '/');
                assert(provider[left.len() as int] == '/');
            }
            assert(left.len() == n);
            assert(left =~= model.take(n));
            assert(model.take(n) =~= provider);
            assert(right =~= model.skip(n + 1));
            assert(model.skip(n + 1) =~= name);
        }
    }
}

proof fn lemma_listed_at(providers: Seq<ProviderEntryView>, name: Seq<char>)
    ensures
        listed_protocol(providers, name) is Some <==> exists|i: int|
            0 <= i < providers.len() && (#[trigger] providers[i]).name == name,
    decreases providers.len(),
{
    if providers.len() > 0 && providers[0].name != name {
        let rest = providers.drop_first();
        lemma_listed_at(rest, name);
        if listed_protocol(rest, name) is Some {
            let i = choose|i: int| 0 <= i < rest.len() && (#[trigger] rest[i]).name == name;
            assert(providers[i + 1] == rest[i]);
        } else {
            assert forall|i: int| 0 <= i < providers.len() implies (#[trigger] providers[i]).name
                != name by {
                if i > 0 {
                    assert(rest[i - 1] == providers[i]);
                }
            }
        }
    }
}

proof fn lemma_protocol_at(entries: Seq<ModelEntryView>, name: Seq<char>)
    ensures
        protocol_of(entries, name) is Some <==> exists|i: int|
            0 <= i < entries.len() && (name_parts((#[trigger] entries[i]).model) matches Some(
                (of, _),
            ) && of == name),
    decreases entries.len(),
{
    if entries.len() > 0 && !belongs(entries[0].model, name) {
        let rest = entries.drop_first();
        lemma_protocol_at(rest, name);
        if protocol_of(rest, name) is Some {
            let i = choose|i: int|
                0 <= i < rest.len() && (name_parts((#[trigger] rest[i]).model) matches Some((of, _))
                    && of == name);
            assert(entries[i + 1] == rest[i]);
        } else {
            assert forall|i: int| 0 <= i < entries.len() implies !(name_parts(
                (#[trigger] entries[i]).model,
            ) matches Some((of, _)) && of == name) by {
                if i > 0 {
                    assert(rest[i - 1] == entries[i]);
                }
            }
        }
    }
}

/// A roster has exactly the providers that it lists and those that a model of it is of.
pub proof fn law_which_providers_a_roster_has(roster: RosterView, name: Seq<char>)
    ensures
        provider_of(roster, name) is Some <==> (exists|i: int|
            0 <= i < roster.providers.len() && (#[trigger] roster.providers[i]).name == name)
            || exists|i: int|
            0 <= i < roster.entries.len() && (name_parts((#[trigger] roster.entries[i]).model)
                matches Some((of, _)) && of == name),
{
    lemma_listed_at(roster.providers, name);
    lemma_protocol_at(roster.entries, name);
}

/// Of two rosters, one over the other, the upper one answers for every model of a
/// provider that it has, though it does not hold that model, and the lower one for
/// all the others.
pub proof fn law_the_upper_roster_answers_for_its_providers(
    base: RosterView,
    over: RosterView,
    model: Seq<char>,
    provider: Seq<char>,
    name: Seq<char>,
)
    requires
        name_parts(model) == Some((provider, name)),
    ensures
        provider_of(over, provider) is Some ==> model_spec(roster_over(base, over), model)
            == model_spec(over, model),
        provider_of(over, provider) is None ==> model_spec(roster_over(base, over), model)
            == model_spec(base, model),
{
    law_a_roster_replaces_whole_providers(base, over, model);
}

/// Entries make a roster exactly where each names a provider and a model.
pub proof fn law_every_entry_names_a_provider_and_a_model(entries: Seq<ModelEntryView>)
    ensures
        first_nameless(entries) is None <==> forall|i: int|
            0 <= i < entries.len() ==> name_parts((#[trigger] entries[i]).model) is Some,
    decreases entries.len(),
{
    if entries.len() > 0 {
        let rest = entries.drop_first();
        law_every_entry_names_a_provider_and_a_model(rest);
        if name_parts(entries[0].model) is Some {
            if first_nameless(rest) is None {
                assert forall|i: int| 0 <= i < entries.len() implies name_parts(
                    (#[trigger] entries[i]).model,
                ) is Some by {
                    if i > 0 {
                        assert(rest[i - 1] == entries[i]);
                    }
                }
            } else {
                let i = choose|i: int|
                    0 <= i < rest.len() && name_parts((#[trigger] rest[i]).model) is None;
                assert(entries[i + 1] == rest[i]);
            }
        }
    }
}

} // verus!
