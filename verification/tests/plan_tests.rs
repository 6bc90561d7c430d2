use boilerplato::plan::{generate_plan, OutContent, OutFile};
use boilerplato::post_generator::{command_env, help_texts_for, post_generate_commands};
use boilerplato::project_template::ProjectTemplate;
use boilerplato::resolve::{extract_template_config, resolve_template_config};
use boilerplato::search::extract_search_results;
use boilerplato::post_generator::handle_post_generate_help_text;
use boilerplato::template_engine::{engine_for, TemplateEngine};
use boilerplato::tree::{DirNode, Entry, FileNode};
use boilerplato::value::TemplateValue;

fn text_file(name: &str, text: &str) -> Entry {
    Entry::File(FileNode {
        name: name.to_string(),
        content: text.as_bytes().to_vec(),
        text: Some(text.to_string()),
        matched_ignore: false,
        matched_gitignore: false,
    })
}

fn dir_node(name: &str, entries: Vec<Entry>) -> DirNode {
    DirNode {
        name: name.to_string(),
        matched_ignore: false,
        matched_gitignore: false,
        entries,
    }
}

fn no_env() -> Vec<(String, String)> {
    Vec::new()
}

/// Runs the whole pipeline short of touching a disk: extract, resolve, pick
/// the engine, and walk, against the given collected data.
fn run_pipeline(
    tree: &DirNode,
    template: &ProjectTemplate,
    project_dir: &str,
    data: Vec<(String, TemplateValue)>,
) -> Result<Vec<OutFile>, boilerplato::error::Error> {
    let mut config = extract_template_config(tree)?;
    resolve_template_config(&mut config, tree, "/tmp/tpl", project_dir, "/tmp", &no_env())?;
    let engine = engine_for(&config)?;
    generate_plan(
        tree,
        template,
        &config,
        &engine,
        &data,
        "/tmp/tpl",
        project_dir,
        "/tmp",
        &no_env(),
    )
}

fn plain_config(extra: &str) -> String {
    format!(
        r#"{{"version":"1","template":{{"engine":"handlebars"}}{}}}"#,
        extra
    )
}

#[test]
fn test_end_to_end_app_name_token() {
    let tree = dir_node(
        "tpl",
        vec![
            text_file("boilerplato.json", &plain_config("")),
            text_file("index.boiler", "$APP_NAME"),
        ],
    );
    let data = vec![("appName".to_string(), TemplateValue::Str("foo".to_string()))];
    let out = run_pipeline(&tree, &ProjectTemplate::Local("tpl".to_string()), "/tmp/foo", data)
        .unwrap();
    assert_eq!(out.len(), 1);
    assert_eq!(out[0].rel_path, "index");
    match &out[0].content {
        OutContent::Text(t) => assert_eq!(t, "foo"),
        _ => panic!("expected rendered text"),
    }
    assert!(out.iter().all(|o| o.rel_path != "index.boiler"));
}

#[test]
fn test_plain_files_copy_byte_identical() {
    let binary = Entry::File(FileNode {
        name: "logo.bin".to_string(),
        content: vec![0, 159, 146, 150],
        text: None,
        matched_ignore: false,
        matched_gitignore: false,
    });
    let tree = dir_node(
        "tpl",
        vec![text_file("boilerplato.json", &plain_config("")), binary],
    );
    let out = run_pipeline(
        &tree,
        &ProjectTemplate::Local("tpl".to_string()),
        "/tmp/foo",
        Vec::new(),
    )
    .unwrap();
    assert_eq!(out.len(), 1);
    assert_eq!(out[0].rel_path, "logo.bin");
    match &out[0].content {
        OutContent::Bytes(b) => assert_eq!(b, &vec![0, 159, 146, 150]),
        _ => panic!("expected a verbatim copy"),
    }
}

#[test]
fn test_templated_file_without_tokens_round_trips() {
    let tree = dir_node(
        "tpl",
        vec![
            text_file("boilerplato.json", &plain_config("")),
            text_file("note.boiler", "hello world, no tokens"),
        ],
    );
    let out = run_pipeline(
        &tree,
        &ProjectTemplate::Local("tpl".to_string()),
        "/tmp/foo",
        Vec::new(),
    )
    .unwrap();
    assert_eq!(out.len(), 1);
    assert_eq!(out[0].rel_path, "note");
    match &out[0].content {
        OutContent::Text(t) => assert_eq!(t, "hello world, no tokens"),
        _ => panic!("expected text"),
    }
}

#[test]
fn test_fixed_ignore_set_beats_overrides() {
    let git_dir = Entry::Dir(dir_node(".git", vec![text_file("HEAD", "ref")]));
    let config = plain_config(r#","files":{".git":{"check":"true","newName":"kept"}}"#);
    let tree = dir_node(
        "tpl",
        vec![text_file("boilerplato.json", &config), git_dir, text_file("a.txt", "a")],
    );
    let out = run_pipeline(
        &tree,
        &ProjectTemplate::Local("tpl".to_string()),
        "/tmp/foo",
        Vec::new(),
    )
    .unwrap();
    assert_eq!(out.len(), 1);
    assert_eq!(out[0].rel_path, "a.txt");
}

#[test]
fn test_override_check_false_removes_entry() {
    let config = plain_config(
        r#","files":{"secret.txt":"false","kept.txt":"true","gone.txt":"  FALSE  "}"#,
    );
    let tree = dir_node(
        "tpl",
        vec![
            text_file("boilerplato.json", &config),
            text_file("secret.txt", "s"),
            text_file("kept.txt", "k"),
            text_file("gone.txt", "g"),
        ],
    );
    let out = run_pipeline(
        &tree,
        &ProjectTemplate::Local("tpl".to_string()),
        "/tmp/foo",
        Vec::new(),
    )
    .unwrap();
    let names: Vec<&str> = out.iter().map(|o| o.rel_path.as_str()).collect();
    assert_eq!(names, vec!["kept.txt"]);
}

#[test]
fn test_override_check_rendering_decides() {
    // The check renders through the engine against the collected data.
    let config = plain_config(r#","files":{"opt.txt":"{{flag}}"}"#);
    let tree = dir_node(
        "tpl",
        vec![text_file("boilerplato.json", &config), text_file("opt.txt", "o")],
    );
    let with_flag = vec![("flag".to_string(), TemplateValue::Str("true".to_string()))];
    let out = run_pipeline(
        &tree,
        &ProjectTemplate::Local("tpl".to_string()),
        "/tmp/foo",
        with_flag,
    )
    .unwrap();
    assert_eq!(out.len(), 1);

    // An empty render means excluded.
    let out = run_pipeline(
        &tree,
        &ProjectTemplate::Local("tpl".to_string()),
        "/tmp/foo",
        Vec::new(),
    )
    .unwrap();
    assert!(out.is_empty());
}

#[test]
fn test_override_new_name_renders() {
    let config = plain_config(r#","files":{"a.txt":{"check":"true","newName":"{{appName}}.txt"}}"#);
    let tree = dir_node(
        "tpl",
        vec![text_file("boilerplato.json", &config), text_file("a.txt", "a")],
    );
    let data = vec![("appName".to_string(), TemplateValue::Str("foo".to_string()))];
    let out = run_pipeline(&tree, &ProjectTemplate::Local("tpl".to_string()), "/tmp/foo", data)
        .unwrap();
    assert_eq!(out[0].rel_path, "foo.txt");
}

#[test]
fn test_templated_sibling_wins() {
    let tree = dir_node(
        "tpl",
        vec![
            text_file("boilerplato.json", &plain_config("")),
            text_file("app.js", "plain version"),
            text_file("app.js.boiler", "templated version"),
        ],
    );
    let out = run_pipeline(
        &tree,
        &ProjectTemplate::Local("tpl".to_string()),
        "/tmp/foo",
        Vec::new(),
    )
    .unwrap();
    assert_eq!(out.len(), 1);
    assert_eq!(out[0].rel_path, "app.js");
    match &out[0].content {
        OutContent::Text(t) => assert_eq!(t, "templated version"),
        _ => panic!("the templated variant must win"),
    }
}

#[test]
fn test_gitignore_matches_only_for_local_sources() {
    let ignored = Entry::File(FileNode {
        name: "target.log".to_string(),
        content: b"x".to_vec(),
        text: Some("x".to_string()),
        matched_ignore: false,
        matched_gitignore: true,
    });
    let tree = dir_node(
        "tpl",
        vec![text_file("boilerplato.json", &plain_config("")), ignored],
    );
    let out = run_pipeline(
        &tree,
        &ProjectTemplate::Local("tpl".to_string()),
        "/tmp/foo",
        Vec::new(),
    )
    .unwrap();
    assert!(out.is_empty());

    let out = run_pipeline(
        &tree,
        &ProjectTemplate::Github("j".to_string(), "r".to_string()),
        "/tmp/foo",
        Vec::new(),
    )
    .unwrap();
    assert_eq!(out.len(), 1);
}

#[test]
fn test_walk_recurses_and_renames_directories() {
    let config = plain_config(r#","files":{"src":{"check":"true","newName":"lib"}}"#);
    let sub = Entry::Dir(dir_node(
        "src",
        vec![text_file("main.rs.boiler", "fn main() {}"), text_file("keep.txt", "k")],
    ));
    let tree = dir_node("tpl", vec![text_file("boilerplato.json", &config), sub]);
    let out = run_pipeline(
        &tree,
        &ProjectTemplate::Local("tpl".to_string()),
        "/tmp/foo",
        Vec::new(),
    )
    .unwrap();
    let mut names: Vec<&str> = out.iter().map(|o| o.rel_path.as_str()).collect();
    names.sort();
    assert_eq!(names, vec!["lib/keep.txt", "lib/main.rs"]);
}

#[test]
fn test_render_failure_is_fatal() {
    let tree = dir_node(
        "tpl",
        vec![
            text_file("boilerplato.json", &plain_config("")),
            text_file("broken.boiler", "{{#if}}"),
        ],
    );
    let err = run_pipeline(
        &tree,
        &ProjectTemplate::Local("tpl".to_string()),
        "/tmp/foo",
        Vec::new(),
    )
    .unwrap_err();
    assert!(err
        .message()
        .starts_with("Failed to generate actual code from template file: broken.boiler"));
}

#[test]
fn test_unreadable_templated_file_is_fatal() {
    let broken = Entry::File(FileNode {
        name: "data.boiler".to_string(),
        content: vec![0xff],
        text: None,
        matched_ignore: false,
        matched_gitignore: false,
    });
    let tree = dir_node(
        "tpl",
        vec![text_file("boilerplato.json", &plain_config("")), broken],
    );
    let err = run_pipeline(
        &tree,
        &ProjectTemplate::Local("tpl".to_string()),
        "/tmp/foo",
        Vec::new(),
    )
    .unwrap_err();
    assert_eq!(err.message(), "Couldn't read the template file: data.boiler");
}

#[test]
fn test_post_generate_command_selection() {
    let val = TemplateValue::Obj(vec![
        ("all".to_string(), TemplateValue::Str("npm install".to_string())),
        (
            "linux".to_string(),
            TemplateValue::Arr(vec![
                TemplateValue::Str("a".to_string()),
                TemplateValue::Num("1".to_string()),
                TemplateValue::Str("b".to_string()),
            ]),
        ),
    ]);
    assert_eq!(post_generate_commands(&val, "linux"), vec!["npm install", "a", "b"]);
    assert_eq!(post_generate_commands(&val, "macos"), vec!["npm install"]);
    let bare = TemplateValue::Str("make".to_string());
    assert_eq!(post_generate_commands(&bare, "linux"), vec!["make"]);
    assert!(post_generate_commands(&TemplateValue::Null, "linux").is_empty());
}

#[test]
fn test_command_env_layers_data_then_extras() {
    let data = vec![
        ("appName".to_string(), TemplateValue::Str("foo".to_string())),
        ("ports".to_string(), TemplateValue::Arr(vec![TemplateValue::Num("1".to_string())])),
    ];
    let extras = vec![("APP_NAME".to_string(), "foo".to_string())];
    let env = command_env(&data, &extras);
    assert_eq!(
        env,
        vec![
            ("appName".to_string(), "foo".to_string()),
            ("ports".to_string(), "[1]".to_string()),
            ("APP_NAME".to_string(), "foo".to_string()),
        ]
    );
}

#[test]
fn test_help_texts_flatten_and_select() {
    let val = TemplateValue::Obj(vec![
        (
            "all".to_string(),
            TemplateValue::Arr(vec![
                TemplateValue::Str("Hello".to_string()),
                TemplateValue::Bool(true),
                TemplateValue::Num("3".to_string()),
                TemplateValue::Arr(vec![TemplateValue::Str("nested".to_string())]),
                TemplateValue::Null,
            ]),
        ),
        ("linux".to_string(), TemplateValue::Str("on linux".to_string())),
    ]);
    assert_eq!(
        help_texts_for(&val, "linux"),
        vec!["Hello", "true", "3", "nested", "on linux"]
    );
    assert_eq!(help_texts_for(&val, "windows"), vec!["Hello", "true", "3", "nested"]);
}

#[test]
fn test_help_text_substitutes_and_renders() {
    let engine = TemplateEngine::parse("handlebars").unwrap();
    let data = vec![("appName".to_string(), TemplateValue::Str("foo".to_string()))];
    let extras = vec![("APP_REL_PATH".to_string(), "foo".to_string())];
    let val = TemplateValue::Str("cd $APP_REL_PATH && run {{appName}}".to_string());
    let texts =
        handle_post_generate_help_text(&val, "linux", &data, &extras, &no_env(), &engine).unwrap();
    assert_eq!(texts, vec!["cd foo && run foo"]);
}

#[test]
fn test_extract_search_results() {
    let answer = TemplateValue::Obj(vec![(
        "items".to_string(),
        TemplateValue::Arr(vec![
            TemplateValue::Obj(vec![
                ("name".to_string(), TemplateValue::Str("react-tpl".to_string())),
                ("description".to_string(), TemplateValue::Str("A react app".to_string())),
            ]),
            TemplateValue::Obj(vec![(
                "name".to_string(),
                TemplateValue::Str("no-description".to_string()),
            )]),
            TemplateValue::Num("5".to_string()),
        ]),
    )]);
    assert_eq!(
        extract_search_results(&answer),
        vec![("react-tpl".to_string(), "A react app".to_string())]
    );
    assert!(extract_search_results(&TemplateValue::Null).is_empty());
}

#[test]
fn test_override_check_render_failure_names_key() {
    let config = plain_config(r#","files":{"opt.txt":{"check":"{{#if}}","newName":"x"}}"#);
    let tree = dir_node(
        "tpl",
        vec![text_file("boilerplato.json", &config), text_file("opt.txt", "o")],
    );
    let err = run_pipeline(
        &tree,
        &ProjectTemplate::Local("tpl".to_string()),
        "/tmp/foo",
        Vec::new(),
    )
    .unwrap_err();
    assert!(err
        .message()
        .starts_with("Couldn't generate check condition for key in 'files' attribute: opt.txt: "));
}
