use vstd::prelude::*;
use crate::error::Error;
use crate::strutil::{spec_eq_ignore_ascii_case, spec_trimmed, str_eq_ignore_ascii_case, trim};
use crate::var_subs::CollectedData;

verus! {

#[verifier::external_type_specification]
#[verifier::external_body]
pub struct ExHandlebars<'a>(handlebars::Handlebars<'a>);

/// The handlebars render engine: a registry the outside crate renders with.
/// The registry is a public field so the surrounding program can register
/// extra helpers on it before disbursement begins.
pub struct HandlebarsTemplateEngine {
    pub handle: handlebars::Handlebars<'static>,
}

impl HandlebarsTemplateEngine {
    /// Relies on handlebars::Handlebars::new: builds a fresh registry.
    #[verifier::external_body]
    pub fn new() -> (r: HandlebarsTemplateEngine) {
        HandlebarsTemplateEngine { handle: handlebars::Handlebars::new() }
    }

    /// Renders a template text against the collected data. Relies on
    /// handlebars::Handlebars::render_template; what comes back depends on
    /// the helpers registered on the registry, so nothing is promised of a
    /// rendered text; every engine failure is reported under the fixed
    /// prefix.
    #[verifier::external_body]
    pub fn render_template(&self, template_text: &str, data: &CollectedData) -> (r: Result<
        String,
        Error,
    >)
        ensures
            r matches Err(e) ==> crate::strutil::spec_starts_with(
                e@,
                "Failed to parse the template text as handlebars: "@,
            ),
    {
        let m: serde_json::Map<String, serde_json::Value> = data.iter().map(
            |(k, v)| (k.clone(), crate::codec::value_to_json(v)),
        ).collect();
        match self.handle.render_template(template_text, &m) {
            Ok(s) => Ok(s),
            Err(e) => Err(
                Error::new(format!("Failed to parse the template text as handlebars: {}", e)),
            ),
        }
    }
}

/// The render engines the pipeline knows; exactly one is supported.
pub enum TemplateEngine {
    Handlebars(HandlebarsTemplateEngine),
}

impl TemplateEngine {
    /// Picks the engine an id names: the fixed engine name, compared after
    /// trimming and case folding; any other id names no engine.
    pub fn parse(template_engine_id: &str) -> (r: Option<TemplateEngine>)
        ensures
            r is Some <==> spec_eq_ignore_ascii_case(
                spec_trimmed(template_engine_id@),
                "handlebars"@,
            ),
    {
        let t = trim(template_engine_id);
        if str_eq_ignore_ascii_case(t, "handlebars") {
            Some(TemplateEngine::Handlebars(HandlebarsTemplateEngine::new()))
        } else {
            None
        }
    }

    /// Renders a template text against the collected data through the chosen
    /// engine; the engine decides the outcome, and every failure carries the
    /// engine's fixed error prefix.
    pub fn render_template(&self, template_text: &str, data: &CollectedData) -> (r: Result<
        String,
        Error,
    >)
        ensures
            r matches Err(e) ==> crate::strutil::spec_starts_with(
                e@,
                "Failed to parse the template text as handlebars: "@,
            ),
    {
        match self {
            TemplateEngine::Handlebars(engine) => engine.render_template(template_text, data),
        }
    }
}

/// The engine a resolved config calls for; an unrecognized engine id is a
/// fatal config error naming the id.
pub fn engine_for(config: &crate::types::TemplateConfig) -> (r: Result<TemplateEngine, Error>)
    ensures
        r is Ok <==> spec_eq_ignore_ascii_case(
            spec_trimmed(config.template.engine@),
            "handlebars"@,
        ),
        r matches Err(e) ==> e@ == "Unsupported template engine specified in the provided template: "@
            + config.template.engine@,
{
    match TemplateEngine::parse(config.template.engine.as_str()) {
        Some(engine) => Ok(engine),
        None => {
            let mut msg = String::from_str(
                "Unsupported template engine specified in the provided template: ",
            );
            msg.append(config.template.engine.as_str());
            Err(Error::new(msg))
        },
    }
}

} // verus!
