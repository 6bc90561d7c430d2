use vstd::prelude::*;
use crate::error::Error;
use crate::pathutil::spec_base_name;
use crate::template_engine::TemplateEngine;
use crate::value::{spec_assoc_value, spec_val_str, json_val_to_actual_str, TemplateValue};
use crate::var_subs::{substitute_variable_in_text, CollectedData, TextMap};

verus! {

broadcast use vstd::string::group_string_axioms;

/// What `pathdiff::diff_paths` computes: the relative route from `base` to
/// `path`, as a path string, or `None` where none exists. A pure function of
/// the two path strings.
pub uninterp spec fn path_diff_of(path: Seq<char>, base: Seq<char>) -> Option<Seq<char>>;

/// Relies on pathdiff::diff_paths: computing a relative path is pure path
/// algebra on the two strings.
#[verifier::external_body]
fn diff_paths(path: &str, base: &str) -> (r: Option<String>)
    ensures
        match r {
            Some(p) => path_diff_of(path@, base@) == Some(p@),
            None => path_diff_of(path@, base@) is None,
        },
{
    pathdiff::diff_paths(path, base).and_then(|p| p.to_str().map(|s| s.to_string()))
}

/// The project-relative path variable: the route from the working directory
/// to the project, falling back to `.` when there is none or it is empty.
pub open spec fn spec_rel_path_var(project_dir: Seq<char>, current_dir: Seq<char>) -> Seq<char> {
    match path_diff_of(project_dir, current_dir) {
        Some(p) => if p.len() > 0 {
            p
        } else {
            "."@
        },
        None => "."@,
    }
}

/// The synthesized extra variables every run gets: the app name (the project
/// directory's base name), the project's full and working-directory-relative
/// paths, and the template root and template source paths.
pub fn gen_extra_template_data(
    template_dir: &str,
    template_source_dir: &str,
    project_dir: &str,
    current_dir: &str,
) -> (r: TextMap)
    ensures
        r@.len() == 5,
        r@[0].0@ == "APP_NAME"@,
        r@[0].1@ == match spec_base_name(project_dir@) {
            Some(n) => n,
            None => Seq::<char>::empty(),
        },
        r@[1].0@ == "APP_FULL_PATH"@,
        r@[1].1@ == project_dir@,
        r@[2].0@ == "APP_REL_PATH"@,
        r@[2].1@ == spec_rel_path_var(project_dir@, current_dir@),
        r@[3].0@ == "TEMPLATE_PATH"@,
        r@[3].1@ == template_dir@,
        r@[4].0@ == "TEMPLATE_SOURCE_PATH"@,
        r@[4].1@ == template_source_dir@,
{
    let mut map: TextMap = Vec::new();
    let app_name = match crate::pathutil::base_name(project_dir) {
        Some(n) => n,
        None => String::new(),
    };
    map.push((String::from_str("APP_NAME"), app_name));
    map.push((String::from_str("APP_FULL_PATH"), String::from_str(project_dir)));
    let rel = match diff_paths(project_dir, current_dir) {
        Some(p) => {
            if p.unicode_len() > 0 {
                p
            } else {
                String::from_str(".")
            }
        },
        None => String::from_str("."),
    };
    map.push((String::from_str("APP_REL_PATH"), rel));
    map.push((String::from_str("TEMPLATE_PATH"), String::from_str(template_dir)));
    map.push((String::from_str("TEMPLATE_SOURCE_PATH"), String::from_str(template_source_dir)));
    map
}

/// The string items of an array, in order; items of any other shape
/// contribute nothing.
pub open spec fn spec_string_items(items: Seq<TemplateValue>) -> Seq<String>
    decreases items.len(),
{
    if items.len() == 0 {
        Seq::empty()
    } else {
        (match items[0] {
            TemplateValue::Str(s) => seq![s],
            _ => Seq::<String>::empty(),
        }) + spec_string_items(items.drop_first())
    }
}

proof fn lemma_string_items_push(items: Seq<TemplateValue>, x: TemplateValue)
    ensures
        spec_string_items(items.push(x)) == spec_string_items(items) + (match x {
            TemplateValue::Str(s) => seq![s],
            _ => Seq::<String>::empty(),
        }),
    decreases items.len(),
{
    if items.len() == 0 {
        assert(items.push(x)[0] == x);
        assert(items.push(x).drop_first() =~= Seq::<TemplateValue>::empty());
        assert(spec_string_items(Seq::<TemplateValue>::empty()) == Seq::<String>::empty());
        assert(spec_string_items(items.push(x)) =~= spec_string_items(items) + (match x {
            TemplateValue::Str(s) => seq![s],
            _ => Seq::<String>::empty(),
        }));
    } else {
        lemma_string_items_push(items.drop_first(), x);
        assert(items.push(x).drop_first() =~= items.drop_first().push(x));
        assert(items.push(x)[0] == items[0]);
        assert(spec_string_items(items.push(x)) =~= spec_string_items(items) + (match x {
            TemplateValue::Str(s) => seq![s],
            _ => Seq::<String>::empty(),
        }));
    }
}

/// The command strings one value contributes: the string itself, or the
/// string items of an array; anything else contributes nothing.
pub open spec fn spec_command_strings(v: TemplateValue) -> Seq<String> {
    match v {
        TemplateValue::Str(s) => seq![s],
        TemplateValue::Arr(items) => spec_string_items(items@),
        _ => Seq::empty(),
    }
}

/// The command strings run for a post-generate value on the given OS: a bare
/// string or array as it stands; an object contributes its `all` member
/// first, then the member named after the OS.
pub open spec fn spec_post_commands(v: TemplateValue, os: Seq<char>) -> Seq<String> {
    match v {
        TemplateValue::Obj(fields) => (match spec_assoc_value(fields@, "all"@) {
            Some(a) => spec_command_strings(a),
            None => Seq::empty(),
        }) + (match spec_assoc_value(fields@, os) {
            Some(a) => spec_command_strings(a),
            None => Seq::empty(),
        }),
        _ => spec_command_strings(v),
    }
}

/// The string items of an array value.
#[verifier::loop_isolation(false)]
fn command_strings(v: &TemplateValue, out: &mut Vec<String>)
    ensures
        final(out)@ == old(out)@ + spec_command_strings(*v),
{
    match v {
        TemplateValue::Str(s) => {
            out.push(s.clone());
            proof {
                assert(out@ =~= old(out)@ + spec_command_strings(*v));
            }
        },
        TemplateValue::Arr(items) => {
            let mut i: usize = 0;
            proof {
                assert(items@.subrange(0, 0) =~= Seq::<TemplateValue>::empty());
                assert(out@ + spec_string_items(items@.subrange(0, 0)) =~= out@);
            }
            while i < items.len()
                invariant
                    0 <= i <= items@.len(),
                    out@ == old(out)@ + spec_string_items(items@.subrange(0, i as int)),
                decreases items@.len() - i,
            {
                match &items[i] {
                    TemplateValue::Str(s) => {
                        out.push(s.clone());
                    },
                    _ => {},
                }
                proof {
                    lemma_string_items_push(items@.subrange(0, i as int), items@[i as int]);
                    assert(items@.subrange(0, i as int).push(items@[i as int]) =~= items@.subrange(
                        0,
                        i as int + 1,
                    ));
                    assert(out@ =~= old(out)@ + spec_string_items(items@.subrange(0, i as int + 1)));
                }
                i = i + 1;
            }
            proof {
                assert(items@.subrange(0, items@.len() as int) =~= items@);
            }
        },
        _ => {
            proof {
                assert(out@ =~= old(out)@ + spec_command_strings(*v));
            }
        },
    }
}

/// The command strings a post-generate value selects on the given OS, in the
/// order they run.
pub fn post_generate_commands(val: &TemplateValue, os: &str) -> (r: Vec<String>)
    ensures
        r@ == spec_post_commands(*val, os@),
{
    let mut out: Vec<String> = Vec::new();
    match val {
        TemplateValue::Obj(_) => {
            match crate::value::get_member(val, "all") {
                Some(a) => command_strings(a, &mut out),
                None => (),
            }
            match crate::value::get_member(val, os) {
                Some(a) => command_strings(a, &mut out),
                None => (),
            }
            proof {
                assert(out@ =~= spec_post_commands(*val, os@));
            }
        },
        _ => {
            command_strings(val, &mut out);
            proof {
                assert(out@ =~= spec_post_commands(*val, os@));
            }
        },
    }
    out
}

/// The environment handed to a post-generate command: every collected answer
/// under its name, rendered as text, followed by the synthesized extra
/// variables. A later entry wins where names collide.
#[verifier::loop_isolation(false)]
pub fn command_env(data: &CollectedData, extras: &TextMap) -> (r: TextMap)
    ensures
        r@.len() == data@.len() + extras@.len(),
        forall|i: int|
            0 <= i < data@.len() ==> (#[trigger] r@[i]).0 == data@[i].0 && r@[i].1@ == spec_val_str(
                data@[i].1,
            ),
        forall|j: int| 0 <= j < extras@.len() ==> #[trigger] r@[data@.len() + j] == extras@[j],
{
    let mut out: TextMap = Vec::new();
    let mut i: usize = 0;
    while i < data.len()
        invariant
            0 <= i <= data@.len(),
            out@.len() == i,
            forall|k: int|
                0 <= k < i ==> (#[trigger] out@[k]).0 == data@[k].0 && out@[k].1@ == spec_val_str(
                    data@[k].1,
                ),
        decreases data@.len() - i,
    {
        let name = data[i].0.clone();
        let text = json_val_to_actual_str(&data[i].1);
        out.push((name, text));
        i = i + 1;
    }
    let mut j: usize = 0;
    while j < extras.len()
        invariant
            0 <= j <= extras@.len(),
            out@.len() == data@.len() + j,
            forall|k: int|
                0 <= k < data@.len() ==> (#[trigger] out@[k]).0 == data@[k].0 && out@[k].1@
                    == spec_val_str(data@[k].1),
            forall|k: int| 0 <= k < j ==> #[trigger] out@[data@.len() + k] == extras@[k],
        decreases extras@.len() - j,
    {
        let name = extras[j].0.clone();
        let text = extras[j].1.clone();
        out.push((name, text));
        j = j + 1;
    }
    out
}

/// The texts one help-text value flattens to: a string, the literal of a
/// number or boolean, or a nested array's texts in order; objects and `null`
/// contribute nothing here.
pub open spec fn spec_help_flatten(v: TemplateValue) -> Seq<Seq<char>>
    decreases v, 0nat,
{
    match v {
        TemplateValue::Str(s) => seq![s@],
        TemplateValue::Num(n) => seq![n@],
        TemplateValue::Bool(b) => seq![
            if b {
                "true"@
            } else {
                "false"@
            },
        ],
        TemplateValue::Arr(items) => spec_help_flatten_items(items@),
        _ => Seq::empty(),
    }
}

pub open spec fn spec_help_flatten_items(items: Seq<TemplateValue>) -> Seq<Seq<char>>
    decreases items, items.len() + 1nat,
{
    if items.len() == 0 {
        Seq::empty()
    } else {
        spec_help_flatten(items[0]) + spec_help_flatten_items(items.drop_first())
    }
}

proof fn lemma_help_flatten_push(items: Seq<TemplateValue>, x: TemplateValue)
    ensures
        spec_help_flatten_items(items.push(x)) == spec_help_flatten_items(items)
            + spec_help_flatten(x),
    decreases items.len(),
{
    if items.len() == 0 {
        assert(items.push(x)[0] == x);
        assert(items.push(x).drop_first() =~= Seq::<TemplateValue>::empty());
        assert(spec_help_flatten_items(Seq::<TemplateValue>::empty()) == Seq::<Seq<char>>::empty());
        assert(spec_help_flatten_items(items.push(x)) =~= spec_help_flatten_items(items)
            + spec_help_flatten(x));
    } else {
        lemma_help_flatten_push(items.drop_first(), x);
        assert(items.push(x).drop_first() =~= items.drop_first().push(x));
        assert(items.push(x)[0] == items[0]);
        assert(spec_help_flatten_items(items.push(x)) =~= spec_help_flatten_items(items)
            + spec_help_flatten(x));
    }
}

/// The help texts a help-text value selects on the given OS: a bare value
/// flattened as it stands; an object contributes its `all` member first,
/// then the member named after the OS.
pub open spec fn spec_help_texts(v: TemplateValue, os: Seq<char>) -> Seq<Seq<char>> {
    match v {
        TemplateValue::Obj(fields) => (match spec_assoc_value(fields@, "all"@) {
            Some(a) => spec_help_flatten(a),
            None => Seq::empty(),
        }) + (match spec_assoc_value(fields@, os) {
            Some(a) => spec_help_flatten(a),
            None => Seq::empty(),
        }),
        _ => spec_help_flatten(v),
    }
}

/// Flattens one help-text value into `out`.
#[verifier::loop_isolation(false)]
fn help_flatten(v: &TemplateValue, out: &mut Vec<String>)
    ensures
        final(out).deep_view() == old(out).deep_view() + spec_help_flatten(*v),
    decreases *v,
{
    match v {
        TemplateValue::Str(s) => {
            out.push(s.clone());
            proof {
                assert(out.deep_view() =~= old(out).deep_view() + spec_help_flatten(*v));
            }
        },
        TemplateValue::Num(n) => {
            out.push(n.clone());
            proof {
                assert(out.deep_view() =~= old(out).deep_view() + spec_help_flatten(*v));
            }
        },
        TemplateValue::Bool(b) => {
            if *b {
                out.push(String::from_str("true"));
            } else {
                out.push(String::from_str("false"));
            }
            proof {
                assert(out.deep_view() =~= old(out).deep_view() + spec_help_flatten(*v));
            }
        },
        TemplateValue::Arr(items) => {
            let mut i: usize = 0;
            proof {
                assert(items@.subrange(0, 0) =~= Seq::<TemplateValue>::empty());
                assert(out.deep_view() + spec_help_flatten_items(items@.subrange(0, 0))
                    =~= out.deep_view());
            }
            while i < items.len()
                invariant
                    0 <= i <= items@.len(),
                    out.deep_view() == old(out).deep_view() + spec_help_flatten_items(
                        items@.subrange(0, i as int),
                    ),
                decreases items@.len() - i,
            {
                proof {
                    assert(decreases_to!(*v => *items));
                    assert(decreases_to!(*items => items@));
                    assert(decreases_to!(items@ => items@[i as int]));
                }
                help_flatten(&items[i], out);
                proof {
                    lemma_help_flatten_push(items@.subrange(0, i as int), items@[i as int]);
                    assert(items@.subrange(0, i as int).push(items@[i as int]) =~= items@.subrange(
                        0,
                        i as int + 1,
                    ));
                }
                i = i + 1;
            }
            proof {
                assert(items@.subrange(0, items@.len() as int) =~= items@);
            }
        },
        _ => {
            proof {
                assert(out.deep_view() =~= old(out).deep_view() + spec_help_flatten(*v));
            }
        },
    }
}

/// The help texts a help-text value selects on the given OS, in print order.
pub fn help_texts_for(val: &TemplateValue, os: &str) -> (r: Vec<String>)
    ensures
        r.deep_view() == spec_help_texts(*val, os@),
{
    let mut out: Vec<String> = Vec::new();
    proof {
        assert(out.deep_view() =~= Seq::<Seq<char>>::empty());
    }
    match val {
        TemplateValue::Obj(_) => {
            match crate::value::get_member(val, "all") {
                Some(a) => help_flatten(a, &mut out),
                None => (),
            }
            match crate::value::get_member(val, os) {
                Some(a) => help_flatten(a, &mut out),
                None => (),
            }
            proof {
                assert(out.deep_view() =~= spec_help_texts(*val, os@));
            }
        },
        _ => {
            help_flatten(val, &mut out);
            proof {
                assert(out.deep_view() =~= spec_help_texts(*val, os@));
            }
        },
    }
    out
}

/// Substitutes variables into every selected help text and renders each
/// through the engine, in print order. The engine decides each render, so
/// success is promised only where there is nothing to render.
#[verifier::loop_isolation(false)]
pub fn handle_post_generate_help_text(
    val: &TemplateValue,
    os: &str,
    template_data: &CollectedData,
    extra_data: &TextMap,
    env_vars: &TextMap,
    template_engine: &TemplateEngine,
) -> (r: Result<Vec<String>, Error>)
    ensures
        r matches Ok(out) ==> out@.len() == spec_help_texts(*val, os@).len(),
        spec_help_texts(*val, os@).len() == 0 ==> (r matches Ok(out) && out@.len() == 0),
        r matches Err(e) ==> crate::strutil::spec_starts_with(
            e@,
            "Failed to parse the template text as handlebars: "@,
        ),
{
    let texts = help_texts_for(val, os);
    let mut out: Vec<String> = Vec::new();
    let mut i: usize = 0;
    while i < texts.len()
        invariant
            0 <= i <= texts@.len(),
            texts.deep_view().len() == texts@.len(),
            out@.len() == i,
        decreases texts@.len() - i,
    {
        let substituted = substitute_variable_in_text(
            texts[i].as_str(),
            template_data,
            extra_data,
            env_vars,
        );
        match template_engine.render_template(substituted.as_str(), template_data) {
            Ok(rendered) => out.push(rendered),
            Err(e) => {
                return Err(e);
            },
        }
        i = i + 1;
    }
    Ok(out)
}

} // verus!
