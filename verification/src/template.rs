//! The bundled template of a record, and the engine that fills it in.

use vstd::prelude::*;

verus! {

/// The name under which the template is known to the engine.
pub const TEMPLATE_NAME: &'static str = "idr";

/// The template of a record. It has three variables: `date`, `title` and
/// `owner`. Its comments tell the author what each section is for.
pub const TEMPLATE: &'static str =
    "# {{ date }}: {{ title }}\n\nOwner: {{ owner }}\n\n## Overview\n\n<!--\nSay in a few sentences what is being built and what was decided.\nA reader who stops here should know whether the rest concerns them.\n-->\n\n## Context\n\n<!-- What led to this work? Link the issues, discussions and earlier records. -->\n\n## Goals and Non-Goals\n\n<!--\nWhat the change must achieve, and what it leaves alone on purpose.\n-->\n\n## Implementation\n\n<!--\nHow it will be built: the design and its steps, and the alternatives that\nwere considered and set aside, each with the reason.\n-->\n\n## Open Questions\n\n<!-- What is not settled yet, and who can settle it. -->\n";

/// `minijinja::Error`, carried from the engine to `render_outcome` as it is.
#[verifier::external_type_specification]
#[verifier::external_body]
pub struct ExEngineError(minijinja::Error);

/// What the engine makes of a template and the values bound to its variables:
/// the text, or nothing where it rejects the template or a binding.
pub uninterp spec fn rendered(
    name: Seq<char>,
    source: Seq<char>,
    bindings: Seq<(Seq<char>, Seq<char>)>,
) -> Option<Seq<char>>;

/// Renders `source` by `minijinja::Environment::render_named_str` in a fresh
/// environment with the engine's defaults, with each variable of `bindings`
/// bound to its string. Whether the engine accepts, and the text it gives,
/// depend on the three arguments alone.
#[verifier::external_body]
pub(crate) fn render(name: &str, source: &str, bindings: &Vec<(String, String)>) -> (result: Result<
    String,
    minijinja::Error,
>)
    ensures
        match result {
            Ok(text) => rendered(name@, source@, bindings.deep_view()) == Some(text@),
            Err(_) => rendered(name@, source@, bindings.deep_view()) is None,
        },
{
    let context: minijinja::Value = bindings.iter().map(|pair| (pair.0.clone(), pair.1.clone())).collect();
    minijinja::Environment::new().render_named_str(name, source, context)
}

/// The engine's own account of an error, by its `Display`.
#[verifier::external_body]
pub(crate) fn describe(error: &minijinja::Error) -> (message: String)
{
    error.to_string()
}

/// The engine rejected the template or a binding.
#[derive(Debug)]
pub struct RenderError {
    /// The engine's account of what went wrong.
    pub message: String,
}

/// What a rendering comes to for the caller: the text, or the engine's error
/// as a `RenderError`.
pub fn render_outcome(result: Result<String, minijinja::Error>) -> (outcome: Result<
    String,
    RenderError,
>)
    ensures
        match result {
            Ok(text) => outcome == Ok::<String, RenderError>(text),
            Err(_) => outcome is Err,
        },
{
    match result {
        Ok(text) => Ok(text),
        Err(error) => Err(RenderError { message: describe(&error) }),
    }
}

} // verus!
