use boilerplato::project_template::ProjectTemplate;
use boilerplato::template_engine::{engine_for, TemplateEngine};
use boilerplato::types::{TemplateConfig, TemplateMeta};
use boilerplato::value::TemplateValue;

fn config_with_engine(engine: &str) -> TemplateConfig {
    TemplateConfig {
        version: "1.0.0".to_string(),
        template: TemplateMeta {
            engine: engine.to_string(),
            path: ".".to_string(),
            extension: ".boiler".to_string(),
        },
        data: Vec::new(),
        files: None,
        files_map: None,
        post_generate: None,
        help_text: None,
    }
}

#[test]
fn test_project_template_parse() {
    assert_eq!(
        ProjectTemplate::parse("react-redux-router-nodejs"),
        ProjectTemplate::InBuilt("react-redux-router-nodejs".to_owned())
    );
    assert_eq!(
        ProjectTemplate::parse("john/bar"),
        ProjectTemplate::Github("john".to_owned(), "bar".to_owned()),
    );
    assert_eq!(
        ProjectTemplate::parse("file:../abc"),
        ProjectTemplate::Local("../abc".to_owned()),
    );
    assert_eq!(
        ProjectTemplate::parse("https://github.com/foo/bar.git"),
        ProjectTemplate::AnyGitRepo("https://github.com/foo/bar.git".to_owned()),
    );
    assert_eq!(
        ProjectTemplate::parse("http://github.com/foo/bar.git"),
        ProjectTemplate::AnyGitRepo("http://github.com/foo/bar.git".to_owned()),
    );
}

#[test]
fn test_parse_trims_and_drops_extra_segments() {
    assert_eq!(
        ProjectTemplate::parse("  plain-name  "),
        ProjectTemplate::InBuilt("plain-name".to_owned())
    );
    assert_eq!(
        ProjectTemplate::parse("john/bar/extra/stuff"),
        ProjectTemplate::Github("john".to_owned(), "bar".to_owned()),
    );
    assert_eq!(
        ProjectTemplate::parse("file:with/slashes"),
        ProjectTemplate::Local("with/slashes".to_owned()),
    );
}

#[test]
fn test_repo_url_in_built() {
    let t = ProjectTemplate::InBuilt("react-nodejs-template".to_string());
    let url = t.repo_url().unwrap().unwrap();
    assert_eq!(url, "https://github.com/boilerplato/react-nodejs-template");
}

#[test]
fn test_repo_url_github() {
    let t = ProjectTemplate::Github("john".to_string(), "bar".to_string());
    let url = t.repo_url().unwrap().unwrap();
    assert_eq!(url, "https://github.com/john/bar");
}

#[test]
fn test_repo_url_any_git_repo() {
    let t = ProjectTemplate::AnyGitRepo("https://github.com/foo/bar.git".to_string());
    let url = t.repo_url().unwrap().unwrap();
    assert_eq!(url, "https://github.com/foo/bar.git");

    let bad = ProjectTemplate::AnyGitRepo("not a url at all".to_string());
    let err = bad.repo_url().unwrap_err();
    assert_eq!(err.message(), "Provided template Git repo URL is invalid");
}

#[test]
fn test_repo_url_local_needs_no_clone() {
    let t = ProjectTemplate::Local("../abc".to_string());
    assert!(t.repo_url().unwrap().is_none());
}

#[test]
fn test_template_engine_parse() {
    assert!(TemplateEngine::parse("handlebars").is_some());
    assert!(TemplateEngine::parse("  HandleBars  ").is_some());
    assert!(TemplateEngine::parse("mustache").is_none());
    assert!(TemplateEngine::parse("").is_none());
}

#[test]
fn test_engine_for_unsupported_engine() {
    let config = config_with_engine("mustache");
    let err = match engine_for(&config) {
        Err(e) => e,
        Ok(_) => panic!("an unknown engine must be refused"),
    };
    assert_eq!(
        err.message(),
        "Unsupported template engine specified in the provided template: mustache"
    );
    assert!(engine_for(&config_with_engine("handlebars")).is_ok());
}

#[test]
fn test_render_template_through_engine() {
    let engine = TemplateEngine::parse("handlebars").unwrap();
    let data = vec![("appName".to_string(), TemplateValue::Str("foo".to_string()))];
    let rendered = engine.render_template("hello {{appName}}", &data).unwrap();
    assert_eq!(rendered, "hello foo");

    let err = engine.render_template("{{#if}}", &data).unwrap_err();
    assert!(err
        .message()
        .starts_with("Failed to parse the template text as handlebars"));
}
