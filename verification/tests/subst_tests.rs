use boilerplato::error::{ErrorExt, ResultExt};
use boilerplato::utils::{gen_uuid, or};
use boilerplato::value::{json_val_to_actual_str, TemplateValue};
use boilerplato::var_subs::substitute_variable_in_text;

fn no_vars() -> Vec<(String, String)> {
    Vec::new()
}

#[test]
fn test_substitution_prefers_collected_data_over_environment() {
    let data = vec![("appName".to_string(), TemplateValue::Str("from-data".to_string()))];
    let env = vec![("appName".to_string(), "from-env".to_string())];
    let out = substitute_variable_in_text("name: $appName", &data, &no_vars(), &env);
    assert_eq!(out, "name: from-data");
}

#[test]
fn test_substitution_layers() {
    let data = vec![("a".to_string(), TemplateValue::Str("1".to_string()))];
    let extras = vec![("b".to_string(), "2".to_string())];
    let env = vec![("c".to_string(), "3".to_string())];
    let out = substitute_variable_in_text("$a ${b} $c $missing", &data, &extras, &env);
    assert_eq!(out, "1 2 3 ");
}

#[test]
fn test_substitution_brace_form_and_boundaries() {
    let extras = vec![("APP_NAME".to_string(), "foo".to_string())];
    let out = substitute_variable_in_text("${APP_NAME}bar $APP_NAMEbar", &no_vars_data(), &extras, &no_vars());
    // The brace form ends the name; the bare form swallows the whole word.
    assert_eq!(out, "foobar ");
}

fn no_vars_data() -> Vec<(String, TemplateValue)> {
    Vec::new()
}

#[test]
fn test_substitution_token_free_text_is_unchanged() {
    let text = "no tokens here, just text. {{even handlebars}}";
    let out = substitute_variable_in_text(text, &no_vars_data(), &no_vars(), &no_vars());
    assert_eq!(out, text);
}

#[test]
fn test_substitution_lone_dollar_stays() {
    let out = substitute_variable_in_text("cost: $ 5 ${!} ${x", &no_vars_data(), &no_vars(), &no_vars());
    assert_eq!(out, "cost: $ 5 ${!} ${x");
}

#[test]
fn test_value_stringification() {
    assert_eq!(json_val_to_actual_str(&TemplateValue::Str("txt".to_string())), "txt");
    assert_eq!(json_val_to_actual_str(&TemplateValue::Num("4.5".to_string())), "4.5");
    assert_eq!(json_val_to_actual_str(&TemplateValue::Bool(true)), "true");
    assert_eq!(json_val_to_actual_str(&TemplateValue::Bool(false)), "false");
    assert_eq!(json_val_to_actual_str(&TemplateValue::Null), "");
    let arr = TemplateValue::Arr(vec![
        TemplateValue::Num("1".to_string()),
        TemplateValue::Str("x".to_string()),
    ]);
    assert_eq!(json_val_to_actual_str(&arr), "[1, x]");
    let obj = TemplateValue::Obj(vec![("k".to_string(), TemplateValue::Null)]);
    assert_eq!(json_val_to_actual_str(&obj), "[object]");
}

#[test]
fn test_substitution_stringifies_arrays() {
    let data = vec![(
        "list".to_string(),
        TemplateValue::Arr(vec![
            TemplateValue::Num("1".to_string()),
            TemplateValue::Num("2".to_string()),
        ]),
    )];
    let out = substitute_variable_in_text("$list", &data, &no_vars(), &no_vars());
    assert_eq!(out, "[1, 2]");
}

#[test]
fn test_or_picks_by_condition() {
    assert_eq!(or(true, 1, 2), 1);
    assert_eq!(or(false, 1, 2), 2);
}

#[test]
fn test_gen_uuid_shape() {
    let u = gen_uuid();
    assert_eq!(u.len(), 36);
    let v = gen_uuid();
    assert_eq!(v.len(), 36);
    assert_ne!(u, v);
}

#[test]
fn test_error_wrap_and_context() {
    let e = ErrorExt::wrap("boom".to_string());
    assert_eq!(e.message(), "boom");
    let e = ErrorExt::context("boom".to_string(), "while working");
    assert_eq!(e.message(), "while working: boom");

    let r: Result<i32, String> = Ok(7);
    assert_eq!(ResultExt::wrap(r).unwrap(), 7);
    let r: Result<i32, String> = Err("bad".to_string());
    let e = ResultExt::context(r, "step").unwrap_err();
    assert_eq!(e.message(), "step: bad");
}
