//! The call into the template engine.

use crate::error::{Error, Failure};
use crate::orbit::PROMPT_TEMPLATE;
use crate::page::PAGE_TEMPLATE;
use vstd::prelude::*;

verus! {

/// The text that the template engine makes of a template and the data for
/// its slots, each a name and a text; `None` where the engine reports an
/// error.
pub uninterp spec fn expanded_template(
    template: Seq<char>,
    data: Seq<(Seq<char>, Seq<char>)>,
) -> Option<Seq<char>>;

/// Whether a template is one of the two that this crate fills: the template
/// of a widget and the template of a page. Neither calls a partial or a
/// helper, so the engine has nothing to do on them but to fill their slots.
pub open spec fn is_own_template(template: Seq<char>) -> bool {
    template == PROMPT_TEMPLATE@ || template == PAGE_TEMPLATE@
}

/// Calls `handlebars::Handlebars::render_template` on a fresh registry whose
/// escape function is `handlebars::no_escape`, with the data as a JSON object
/// of strings. The result is named, not described: it is whatever the engine
/// makes of this template and this data. An error comes back as its message.
/// Only the crate's own templates are handed over: a template of another
/// making could call itself through partials without end.
#[verifier::external_body]
pub(crate) fn expand_template(template: &str, data: &Vec<(String, String)>) -> (expanded: Result<
    String,
    String,
>)
    requires
        is_own_template(template@),
    ensures
        match expanded_template(template@, data.deep_view()) {
            Some(text) => expanded matches Ok(s) && s@ == text,
            None => expanded is Err,
        },
{
    let mut slots = serde_json::Map::new();
    for (name, text) in data {
        slots.insert(name.clone(), serde_json::Value::String(text.clone()));
    }
    let mut registry = handlebars::Handlebars::new();
    registry.register_escape_fn(handlebars::no_escape);
    registry.render_template(template, &slots).map_err(|error| error.to_string())
}

/// What becomes of the engine's answer: its text, or the failure that holds
/// its message.
pub fn template_outcome(expanded: Result<String, String>) -> (outcome: Result<String, Error>)
    ensures
        match expanded {
            Ok(text) => outcome == Ok::<String, Error>(text),
            Err(message) => outcome == Err::<String, Error>(Error::Template { message }),
        },
{
    match expanded {
        Ok(text) => Ok(text),
        Err(message) => Err(Error::Template { message }),
    }
}

/// Fills the slots of one of the crate's two templates with `data`.
pub fn fill_template(template: &str, data: &Vec<(String, String)>) -> (filled: Result<
    String,
    Error,
>)
    requires
        is_own_template(template@),
    ensures
        match expanded_template(template@, data.deep_view()) {
            Some(text) => filled matches Ok(s) && s@ == text,
            None => filled matches Err(e) && e@ == Failure::Template,
        },
{
    template_outcome(expand_template(template, data))
}

} // verus!
