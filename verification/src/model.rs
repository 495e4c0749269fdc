//! Model names of the form `provider/name`.
use vstd::prelude::*;

use crate::error::{Error, ErrorView};
use crate::text::{halves, same_text, split_once};

verus! {

/// A provider that a bare model name can address.
#[derive(Debug, Clone, Copy, PartialEq, Eq, Structural)]
pub enum Provider {
    OpenAi,
}

/// The provider and the name within it: what stands before and after the first
/// slash, where the first is a provider and the second is not empty.
pub open spec fn model_parts(model: Seq<char>) -> Option<(Provider, Seq<char>)> {
    match halves(model, "/"@) {
        Some((provider, name)) => if provider == "openai"@ && name.len() > 0 {
            Some((Provider::OpenAi, name))
        } else {
            None
        },
        None => None,
    }
}

/// Splits a model name into its provider and the name within it.
pub fn parse_model(model: &str) -> (r: Result<(Provider, String), Error>)
    ensures
        match r {
            Ok((provider, name)) => model_parts(model@) == Some((provider, name@)),
            Err(error) => model_parts(model@) is None && error@ == (ErrorView::InvalidModel {
                given: model@,
            }),
        },
{
    if let Some((provider, name)) = split_once(model, "/") {
        if same_text(provider.as_str(), "openai") && !name.as_str().is_empty() {
            return Ok((Provider::OpenAi, name));
        }
    }
    Err(Error::InvalidModel { given: model.to_owned() })
}

/// A name addresses OpenAI exactly where it begins with its name and a slash, and what
/// follows, which is not empty, is the name of the model.
pub proof fn law_a_model_is_named_after_the_slash(model: Seq<char>, name: Seq<char>)
    ensures
        model_parts(model) == Some((Provider::OpenAi, name)) <==> model == "openai/"@ + name
            && name.len() > 0,
{
    reveal_strlit("openai/");
    reveal_strlit("openai");
    reveal_strlit("/");
    assert("openai/"@ =~= "openai"@ + "/"@);
    crate::text::law_halves_meet_at_the_first_pattern(model, "/"@);
    if model == "openai/"@ + name {
        assert(model.subrange(6, 7) =~= "/"@);
        if let Some((left, right)) = halves(model, "/"@) {
            assert(model[left.len() as int] == '/');
            assert(left.len() == 6);
            assert(model.take(6) =~= "openai"@);
            assert(left =~= model.take(6));
            assert(model.skip(7) =~= name);
            assert(right =~= model.skip(7));
        }
    }
}

} // verus!
