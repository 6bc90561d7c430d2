use boilerplato::config::config_from_value;
use boilerplato::data_prompts::{
    get_data_massage, parse_bool_input, parse_semver_input, split_list_input, string_allowed,
};
use boilerplato::types::{ConfigFileType, TemplateConfig, TemplateData, TemplateDataType};
use boilerplato::value::TemplateValue;

const FULL_JSON: &str = r#"{
    "version": "1.0.0",
    "template": { "engine": "handlebars", "path": "./template", "extension": ".tpl" },
    "data": [
        { "name": "appName", "type": "string", "message": "App name: ", "required": true },
        { "name": "port", "type": "number", "required": false, "defaultValue": 8080 },
        { "name": "private", "type": "bool", "required": false, "defaultValue": true },
        { "name": "tags", "type": "array[string]", "required": false },
        { "name": "nums", "type": "array[number]", "required": false },
        { "name": "ver", "type": "semver", "required": false, "defaultValue": "1.0.0" }
    ],
    "files": { "a.txt": "true" },
    "postGenerate": "npm install",
    "helpText": "done",
    "somethingUnknown": 42
}"#;

#[test]
fn test_parse_full_json_config() {
    let c = TemplateConfig::parse(FULL_JSON, ConfigFileType::JSON).unwrap();
    assert_eq!(c.version, "1.0.0");
    assert_eq!(c.template.engine, "handlebars");
    assert_eq!(c.template.path, "./template");
    assert_eq!(c.template.extension, ".tpl");
    assert_eq!(c.data.len(), 6);
    assert_eq!(c.data[0].name, "appName");
    assert_eq!(c.data[0].data_type, TemplateDataType::String);
    assert!(c.data[0].required);
    assert_eq!(c.data[0].message, "App name: ");
    assert_eq!(c.data[1].data_type, TemplateDataType::Number);
    match &c.data[1].default_value {
        Some(TemplateValue::Num(n)) => assert_eq!(n, "8080"),
        other => panic!("unexpected default: {:?}", other.is_some()),
    }
    assert_eq!(c.data[2].data_type, TemplateDataType::Bool);
    assert_eq!(c.data[3].data_type, TemplateDataType::ArrayString);
    assert_eq!(c.data[4].data_type, TemplateDataType::ArrayNumber);
    assert_eq!(c.data[5].data_type, TemplateDataType::Semver);
    let files = c.files.as_ref().unwrap();
    assert_eq!(files.len(), 1);
    assert_eq!(files[0].0, "a.txt");
    assert!(c.files_map.is_none());
    match &c.post_generate {
        Some(TemplateValue::Str(s)) => assert_eq!(s, "npm install"),
        _ => panic!("postGenerate missing"),
    }
    match &c.help_text {
        Some(TemplateValue::Str(s)) => assert_eq!(s, "done"),
        _ => panic!("helpText missing"),
    }
}

#[test]
fn test_parse_minimal_yaml_config() {
    let text = "version: \"1.0.0\"\ntemplate:\n  engine: handlebars\n";
    let c = TemplateConfig::parse(text, ConfigFileType::YAML).unwrap();
    assert_eq!(c.version, "1.0.0");
    assert_eq!(c.template.engine, "handlebars");
    assert_eq!(c.template.path, "");
    assert_eq!(c.template.extension, "");
    assert!(c.data.is_empty());
    assert!(c.files.is_none());
    assert!(c.post_generate.is_none());
    assert!(c.help_text.is_none());
}

#[test]
fn test_parse_rejects_bad_configs() {
    assert!(TemplateConfig::parse("not json at all {", ConfigFileType::JSON).is_err());
    // No version.
    assert!(
        TemplateConfig::parse(r#"{"template":{"engine":"handlebars"}}"#, ConfigFileType::JSON)
            .is_err()
    );
    // No template attribute.
    assert!(TemplateConfig::parse(r#"{"version":"1"}"#, ConfigFileType::JSON).is_err());
    // A data entry without 'required'.
    let text = r#"{"version":"1","template":{"engine":"h"},
        "data":[{"name":"x","type":"string"}]}"#;
    assert!(TemplateConfig::parse(text, ConfigFileType::JSON).is_err());
    // A data entry with an unknown type.
    let text = r#"{"version":"1","template":{"engine":"h"},
        "data":[{"name":"x","type":"float","required":false}]}"#;
    assert!(TemplateConfig::parse(text, ConfigFileType::JSON).is_err());
    // 'files' of the wrong shape.
    let text = r#"{"version":"1","template":{"engine":"h"},"files":[1,2]}"#;
    assert!(TemplateConfig::parse(text, ConfigFileType::JSON).is_err());
}

#[test]
fn test_config_from_value_takes_first_member() {
    let v = TemplateValue::Obj(vec![
        ("version".to_string(), TemplateValue::Str("1".to_string())),
        (
            "template".to_string(),
            TemplateValue::Obj(vec![(
                "engine".to_string(),
                TemplateValue::Str("handlebars".to_string()),
            )]),
        ),
        ("version".to_string(), TemplateValue::Str("2".to_string())),
    ]);
    let c = config_from_value(v).unwrap();
    assert_eq!(c.version, "1");
}

fn data_spec(
    name: &str,
    data_type: TemplateDataType,
    message: &str,
    required: bool,
    default_value: Option<TemplateValue>,
) -> TemplateData {
    TemplateData {
        name: name.to_string(),
        data_type,
        values: None,
        message: message.to_string(),
        required,
        default_value,
    }
}

#[test]
fn test_data_message_required_and_default_prompt() {
    let d = data_spec("port", TemplateDataType::Number, "  Pick a port:  ", true, None);
    assert_eq!(get_data_massage(&d), "Pick a port:");
    let d = data_spec("port", TemplateDataType::Number, "", true, None);
    assert_eq!(get_data_massage(&d), "Enter port: ");
}

#[test]
fn test_data_message_shows_defaults_per_type() {
    let d = data_spec(
        "name",
        TemplateDataType::String,
        "Name:",
        false,
        Some(TemplateValue::Str("joe".to_string())),
    );
    assert_eq!(get_data_massage(&d), "Name: (joe)");

    let d = data_spec(
        "port",
        TemplateDataType::Number,
        "Port:",
        false,
        Some(TemplateValue::Num("8080".to_string())),
    );
    assert_eq!(get_data_massage(&d), "Port: (8080)");

    let d = data_spec(
        "private",
        TemplateDataType::Bool,
        "Private?",
        false,
        Some(TemplateValue::Bool(true)),
    );
    assert_eq!(get_data_massage(&d), "Private? (yes)");

    let d = data_spec(
        "tags",
        TemplateDataType::ArrayString,
        "Tags:",
        false,
        Some(TemplateValue::Arr(vec![
            TemplateValue::Str("a".to_string()),
            TemplateValue::Str("b".to_string()),
        ])),
    );
    assert_eq!(get_data_massage(&d), "Tags: ([a, b])");

    let d = data_spec(
        "nums",
        TemplateDataType::ArrayNumber,
        "Nums:",
        false,
        Some(TemplateValue::Arr(vec![
            TemplateValue::Num("1".to_string()),
            TemplateValue::Num("2.5".to_string()),
        ])),
    );
    assert_eq!(get_data_massage(&d), "Nums: ([1, 2.5])");
}

#[test]
fn test_data_message_keeps_the_empty_default_quirks() {
    // An optional string whose default trims to empty shows no default.
    let d = data_spec(
        "name",
        TemplateDataType::String,
        "Name:",
        false,
        Some(TemplateValue::Str("   ".to_string())),
    );
    assert_eq!(get_data_massage(&d), "Name:");
    // An optional semver whose default trims to empty yields nothing at all.
    let d = data_spec(
        "ver",
        TemplateDataType::Semver,
        "Version:",
        false,
        Some(TemplateValue::Str("".to_string())),
    );
    assert_eq!(get_data_massage(&d), "");
    let d = data_spec(
        "ver",
        TemplateDataType::Semver,
        "Version:",
        false,
        Some(TemplateValue::Str("1.0.0".to_string())),
    );
    assert_eq!(get_data_massage(&d), "Version: (1.0.0)");
}

#[test]
fn test_default_value_per_type() {
    match TemplateDataType::String.default_value() {
        TemplateValue::Str(s) => assert_eq!(s, ""),
        _ => panic!("wrong default"),
    }
    match TemplateDataType::Number.default_value() {
        TemplateValue::Num(n) => assert_eq!(n, "0.0"),
        _ => panic!("wrong default"),
    }
    match TemplateDataType::Bool.default_value() {
        TemplateValue::Bool(b) => assert!(!b),
        _ => panic!("wrong default"),
    }
    match TemplateDataType::ArrayString.default_value() {
        TemplateValue::Arr(a) => assert!(a.is_empty()),
        _ => panic!("wrong default"),
    }
    match TemplateDataType::Semver.default_value() {
        TemplateValue::Str(s) => assert_eq!(s, "1.0.0"),
        _ => panic!("wrong default"),
    }
}

#[test]
fn test_parse_bool_input() {
    assert_eq!(parse_bool_input("yes"), Some(true));
    assert_eq!(parse_bool_input("Y"), Some(true));
    assert_eq!(parse_bool_input("NO"), Some(false));
    assert_eq!(parse_bool_input("n"), Some(false));
    assert_eq!(parse_bool_input("maybe"), None);
    assert_eq!(parse_bool_input(""), None);
}

#[test]
fn test_string_allowed() {
    let values = vec![
        TemplateValue::Str("MIT".to_string()),
        TemplateValue::Num("1".to_string()),
        TemplateValue::Str("APACHE".to_string()),
    ];
    assert!(string_allowed(&values, "MIT"));
    assert!(string_allowed(&values, "APACHE"));
    assert!(!string_allowed(&values, "GPL"));
    // A number value never matches by text.
    assert!(!string_allowed(&values, "1"));
}

#[test]
fn test_split_list_input() {
    assert_eq!(split_list_input("a, b,c"), vec!["a", "b", "c"]);
    assert_eq!(split_list_input("one"), vec!["one"]);
    // A leading or trailing separator run leaves an empty piece, as the
    // original's separator split did.
    assert_eq!(split_list_input(",a"), vec!["", "a"]);
    assert_eq!(split_list_input("a,"), vec!["a", ""]);
    assert_eq!(split_list_input("a  b\tc"), vec!["a", "b", "c"]);
}

#[test]
fn test_parse_semver_input() {
    assert_eq!(parse_semver_input("1.2.3"), Some("1.2.3".to_string()));
    assert_eq!(
        parse_semver_input("1.2.3-alpha+build"),
        Some("1.2.3-alpha+build".to_string())
    );
    assert_eq!(parse_semver_input("1.2"), None);
    assert_eq!(parse_semver_input("01.2.3"), None);
    assert_eq!(parse_semver_input("not a version"), None);
}
