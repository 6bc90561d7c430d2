use boilerplato::post_generator::gen_extra_template_data;
use boilerplato::resolve::{
    extract_template_config, inject_app_name, resolve_template_config,
};
use boilerplato::tree::{DirNode, Entry, FileNode};
use boilerplato::types::{TemplateData, TemplateDataType};
use boilerplato::value::TemplateValue;

fn file(name: &str, text: &str) -> Entry {
    Entry::File(FileNode {
        name: name.to_string(),
        content: text.as_bytes().to_vec(),
        text: Some(text.to_string()),
        matched_ignore: false,
        matched_gitignore: false,
    })
}

fn dir(name: &str, entries: Vec<Entry>) -> DirNode {
    DirNode {
        name: name.to_string(),
        matched_ignore: false,
        matched_gitignore: false,
        entries,
    }
}

fn no_env() -> Vec<(String, String)> {
    Vec::new()
}

#[test]
fn test_extract_template_config_priority() {
    let tree = dir(
        "tpl",
        vec![
            file("boilerplato.yaml", "version: \"2\"\ntemplate:\n  engine: handlebars\n"),
            file("boilerplato.json", r#"{"version":"1","template":{"engine":"handlebars"}}"#),
        ],
    );
    let c = extract_template_config(&tree).unwrap();
    assert_eq!(c.version, "1");
}

#[test]
fn test_extract_template_config_falls_back_on_unreadable_file() {
    // The JSON spelling exists but could not be read as text, so the YAML
    // spelling is used.
    let unreadable = Entry::File(FileNode {
        name: "boilerplato.json".to_string(),
        content: vec![0xff, 0xfe],
        text: None,
        matched_ignore: false,
        matched_gitignore: false,
    });
    let tree = dir(
        "tpl",
        vec![
            unreadable,
            file("boilerplato.yml", "version: \"3\"\ntemplate:\n  engine: handlebars\n"),
        ],
    );
    let c = extract_template_config(&tree).unwrap();
    assert_eq!(c.version, "3");
}

#[test]
fn test_extract_template_config_missing() {
    let tree = dir("tpl", vec![file("README.md", "hi")]);
    let err = extract_template_config(&tree).unwrap_err();
    assert_eq!(
        err.message(),
        "No config file found in the provided template: boilerplato.json or boilerplato.yaml or boilerplato.yml file is required"
    );
}

#[test]
fn test_extract_template_config_invalid_json_does_not_fall_back() {
    let tree = dir(
        "tpl",
        vec![
            file("boilerplato.json", "{ not valid"),
            file("boilerplato.yaml", "version: \"2\"\ntemplate:\n  engine: handlebars\n"),
        ],
    );
    assert!(extract_template_config(&tree).is_err());
}

#[test]
fn test_app_name_injection_fresh() {
    let mut data: Vec<TemplateData> = vec![TemplateData {
        name: "port".to_string(),
        data_type: TemplateDataType::Number,
        values: None,
        message: "Port: ".to_string(),
        required: true,
        default_value: None,
    }];
    inject_app_name(&mut data, "my-app");
    assert_eq!(data.len(), 2);
    assert_eq!(data[0].name, "appName");
    assert_eq!(data[0].data_type, TemplateDataType::String);
    assert!(!data[0].required);
    assert!(data[0].values.is_none());
    assert_eq!(data[0].message, "Enter app name: ");
    match &data[0].default_value {
        Some(TemplateValue::Str(s)) => assert_eq!(s, "my-app"),
        _ => panic!("expected a string default"),
    }
    assert_eq!(data[1].name, "port");
}

#[test]
fn test_app_name_injection_overwrites_declared_spec() {
    let mut data: Vec<TemplateData> = vec![TemplateData {
        name: "appName".to_string(),
        data_type: TemplateDataType::Semver,
        values: Some(vec![TemplateValue::Str("x".to_string())]),
        message: "Your app? ".to_string(),
        required: true,
        default_value: None,
    }];
    inject_app_name(&mut data, "my-app");
    assert_eq!(data.len(), 1);
    assert_eq!(data[0].name, "appName");
    // The message is preserved; everything else is forced.
    assert_eq!(data[0].message, "Your app? ");
    assert_eq!(data[0].data_type, TemplateDataType::String);
    assert!(!data[0].required);
    assert!(data[0].values.is_none());
    match &data[0].default_value {
        Some(TemplateValue::Str(s)) => assert_eq!(s, "my-app"),
        _ => panic!("expected a string default"),
    }
}

#[test]
fn test_resolve_defaults_and_app_name() {
    let tree = dir(
        "tpl",
        vec![file("boilerplato.json", r#"{"version":"1","template":{"engine":"handlebars"}}"#)],
    );
    let mut c = extract_template_config(&tree).unwrap();
    resolve_template_config(&mut c, &tree, "/tmp/tpl", "/tmp/my-app", "/tmp", &no_env())
        .unwrap();
    assert_eq!(c.template.path, ".");
    assert_eq!(c.template.extension, ".boiler");
    assert_eq!(c.data[0].name, "appName");
    match &c.data[0].default_value {
        Some(TemplateValue::Str(s)) => assert_eq!(s, "my-app"),
        _ => panic!("expected the project name"),
    }
}

#[test]
fn test_resolve_substitutes_string_defaults() {
    let config_text = r#"{"version":"1","template":{"engine":"handlebars"},
        "data":[{"name":"title","type":"string","required":false,
                 "defaultValue":"$APP_NAME rocks"}]}"#;
    let tree = dir("tpl", vec![file("boilerplato.json", config_text)]);
    let mut c = extract_template_config(&tree).unwrap();
    resolve_template_config(&mut c, &tree, "/tmp/tpl", "/tmp/my-app", "/tmp", &no_env())
        .unwrap();
    let title = c.data.iter().find(|d| d.name == "title").unwrap();
    match &title.default_value {
        Some(TemplateValue::Str(s)) => assert_eq!(s, "my-app rocks"),
        _ => panic!("expected a substituted default"),
    }
}

#[test]
fn test_resolve_required_defaults_left_alone() {
    let config_text = r#"{"version":"1","template":{"engine":"handlebars"},
        "data":[{"name":"title","type":"string","required":true,
                 "defaultValue":"$APP_NAME rocks"}]}"#;
    let tree = dir("tpl", vec![file("boilerplato.json", config_text)]);
    let mut c = extract_template_config(&tree).unwrap();
    resolve_template_config(&mut c, &tree, "/tmp/tpl", "/tmp/my-app", "/tmp", &no_env())
        .unwrap();
    let title = c.data.iter().find(|d| d.name == "title").unwrap();
    match &title.default_value {
        Some(TemplateValue::Str(s)) => assert_eq!(s, "$APP_NAME rocks"),
        _ => panic!("expected the untouched default"),
    }
}

#[test]
fn test_resolve_source_path_and_missing_source() {
    let config_text =
        r#"{"version":"1","template":{"engine":"handlebars","path":"./src"}}"#;
    let src = dir("src", vec![file("a.txt", "a")]);
    let tree = dir(
        "tpl",
        vec![file("boilerplato.json", config_text), Entry::Dir(src)],
    );
    let mut c = extract_template_config(&tree).unwrap();
    resolve_template_config(&mut c, &tree, "/tmp/tpl", "/tmp/app", "/tmp", &no_env()).unwrap();

    let bad_text =
        r#"{"version":"1","template":{"engine":"handlebars","path":"./nowhere"}}"#;
    let tree2 = dir("tpl", vec![file("boilerplato.json", bad_text)]);
    let mut c2 = extract_template_config(&tree2).unwrap();
    let err = resolve_template_config(&mut c2, &tree2, "/tmp/tpl", "/tmp/app", "/tmp", &no_env())
        .unwrap_err();
    assert_eq!(err.message(), "Template source not found");
}

#[test]
fn test_resolve_files_map_keys() {
    let config_text = r#"{"version":"1","template":{"engine":"handlebars"},
        "files":{"./a.txt":"true",
                 "b.txt":{"check":"{{flag}}","newName":"c.txt"}}}"#;
    let tree = dir(
        "tpl",
        vec![
            file("boilerplato.json", config_text),
            file("a.txt", "a"),
            file("b.txt", "b"),
        ],
    );
    let mut c = extract_template_config(&tree).unwrap();
    resolve_template_config(&mut c, &tree, "/tmp/tpl", "/tmp/app", "/tmp", &no_env()).unwrap();
    let fm = c.files_map.as_ref().unwrap();
    assert_eq!(fm.len(), 2);
    // Keys are re-keyed to their plain relative form; map order follows the
    // parsed object, which serde_json keeps sorted.
    let a = fm.iter().find(|(k, _)| k == "a.txt").unwrap();
    assert_eq!(a.1.check, "true");
    assert!(a.1.new_name.is_none());
    let b = fm.iter().find(|(k, _)| k == "b.txt").unwrap();
    assert_eq!(b.1.check, "{{flag}}");
    assert_eq!(b.1.new_name.as_deref(), Some("c.txt"));
}

#[test]
fn test_resolve_files_map_errors() {
    // A key that names nothing under the source.
    let config_text = r#"{"version":"1","template":{"engine":"handlebars"},
        "files":{"missing.txt":"true"}}"#;
    let tree = dir("tpl", vec![file("boilerplato.json", config_text)]);
    let mut c = extract_template_config(&tree).unwrap();
    let err = resolve_template_config(&mut c, &tree, "/t", "/p", "/", &no_env()).unwrap_err();
    assert_eq!(
        err.message(),
        "A path key in 'files' attribute does not exist: missing.txt"
    );

    // An object override without a 'check'.
    let config_text = r#"{"version":"1","template":{"engine":"handlebars"},
        "files":{"a.txt":{"newName":"b"}}}"#;
    let tree = dir(
        "tpl",
        vec![file("boilerplato.json", config_text), file("a.txt", "a")],
    );
    let mut c = extract_template_config(&tree).unwrap();
    let err = resolve_template_config(&mut c, &tree, "/t", "/p", "/", &no_env()).unwrap_err();
    assert_eq!(
        err.message(),
        "The 'files' doesn't have handlebars formatted 'check' condition for: a.txt"
    );

    // An override of a shape that is neither string nor object.
    let config_text = r#"{"version":"1","template":{"engine":"handlebars"},
        "files":{"a.txt":42}}"#;
    let tree = dir(
        "tpl",
        vec![file("boilerplato.json", config_text), file("a.txt", "a")],
    );
    let mut c = extract_template_config(&tree).unwrap();
    let err = resolve_template_config(&mut c, &tree, "/t", "/p", "/", &no_env()).unwrap_err();
    assert_eq!(err.message(), "The 'files' allows only string or a map as condition");
}

#[test]
fn test_gen_extra_template_data_entries() {
    let extras = gen_extra_template_data("/a/tpl", "/a/tpl/src", "/a/b/proj", "/a/b");
    assert_eq!(extras.len(), 5);
    assert_eq!(extras[0], ("APP_NAME".to_string(), "proj".to_string()));
    assert_eq!(extras[1], ("APP_FULL_PATH".to_string(), "/a/b/proj".to_string()));
    assert_eq!(extras[2], ("APP_REL_PATH".to_string(), "proj".to_string()));
    assert_eq!(extras[3], ("TEMPLATE_PATH".to_string(), "/a/tpl".to_string()));
    assert_eq!(extras[4], ("TEMPLATE_SOURCE_PATH".to_string(), "/a/tpl/src".to_string()));

    // The relative path falls back to "." when the project is the working
    // directory itself.
    let extras = gen_extra_template_data("/t", "/t", "/a/b", "/a/b");
    assert_eq!(extras[2], ("APP_REL_PATH".to_string(), ".".to_string()));
}
