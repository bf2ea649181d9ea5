//! Rendering a unit file from its template.

use crate::error::{Failure, ManagerError};
use crate::string_map::{distinct_keys, map_of, pairs_of, StringMap};
use crate::text::text_of;
use minijinja::Environment;
use std::collections::BTreeMap;
use vstd::prelude::*;
use vstd::string::*;

verus! {

/// `minijinja::Error`, the error type of the template engine. Nothing is
/// known of what it holds.
#[verifier::external_type_specification]
#[verifier::external_body]
pub struct ExTemplateError(minijinja::Error);

/// What the template `source` renders to when its variables are bound as
/// `variables` say; `None` where the engine refuses the template or fails
/// while rendering it.
pub uninterp spec fn rendered(source: Seq<char>, variables: Map<Seq<char>, Seq<char>>) -> Option<
    Seq<char>,
>;

/// Renders `source` with `minijinja`: a fresh `Environment::new()`, the
/// template added to it under the name `service` with
/// `Environment::add_template` and fetched with `Environment::get_template`,
/// then `Template::render` on the variables, which are handed over as a map
/// from name to value.
///
/// Trusted: whether the engine succeeds, and the text it gives, are those
/// named by [`rendered`] for the source and the map that holds the pairs.
#[verifier::external_body]
fn render_source(source: &str, variables: &Vec<(String, String)>) -> (outcome: Result<
    String,
    minijinja::Error,
>)
    requires
        distinct_keys(pairs_of(variables@)),
    ensures
        match outcome {
            Ok(text) => rendered(source@, map_of(pairs_of(variables@))) == Some(text@),
            Err(_) => rendered(source@, map_of(pairs_of(variables@))) is None,
        },
{
    let context: BTreeMap<&str, &str> = variables.iter().map(
        |pair| (pair.0.as_str(), pair.1.as_str()),
    ).collect();
    let mut environment = Environment::new();
    environment.add_template("service", source)?;
    environment.get_template("service")?.render(context)
}

/// The outcome of rendering the template found at `path`: `source` is what
/// the file holds, `None` where there is no such file.
pub open spec fn render_result(
    path: Seq<char>,
    source: Option<Seq<char>>,
    variables: Map<Seq<char>, Seq<char>>,
) -> Result<Seq<char>, Failure> {
    match source {
        None => Err(Failure::TemplateNotFound(path)),
        Some(source) => match rendered(source, variables) {
            Some(text) => Ok(text),
            None => Err(Failure::Template),
        },
    }
}

/// Renders the template that was looked for at `template_path`.
///
/// `template_source` is the content of that file, or `None` where the file
/// does not exist: that is reported before anything is parsed, so that a
/// missing template is told apart from a broken one.
pub fn render_template(
    template_path: &str,
    template_source: Option<&str>,
    variables: &StringMap,
) -> (outcome: Result<String, ManagerError>)
    ensures
        match outcome {
            Ok(text) => render_result(template_path@, text_of(template_source), variables@) == Ok::<
                Seq<char>,
                Failure,
            >(text@),
            Err(error) => render_result(template_path@, text_of(template_source), variables@)
                == Err::<Seq<char>, Failure>(error@),
        },
{
    match template_source {
        None => Err(ManagerError::TemplateNotFound(String::from_str(template_path))),
        Some(source) => match render_source(source, variables.entries()) {
            Ok(text) => Ok(text),
            Err(error) => Err(ManagerError::Template(error)),
        },
    }
}

} // verus!
