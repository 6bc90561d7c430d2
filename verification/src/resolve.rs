use vstd::prelude::*;
use crate::error::Error;
use crate::strutil::str_eq;
use crate::types::{CondFileMap, TemplateConfig, TemplateData, TemplateDataType};
use crate::value::{spec_assoc_value, TemplateValue};
use crate::var_subs::{spec_substitute, substitute_variable_in_text, TextMap};

verus! {

broadcast use vstd::string::group_string_axioms;

/// Index of the first data spec named `appName`, or the length when none is.
pub open spec fn spec_app_name_idx(data: Seq<TemplateData>) -> int
    decreases data.len(),
{
    if data.len() == 0 {
        0
    } else if data[0].name@ == "appName"@ {
        0
    } else {
        1 + spec_app_name_idx(data.drop_first())
    }
}

pub proof fn lemma_app_name_idx(data: Seq<TemplateData>)
    ensures
        0 <= spec_app_name_idx(data) <= data.len(),
        spec_app_name_idx(data) < data.len() ==> data[spec_app_name_idx(data)].name@
            == "appName"@,
        forall|k: int| 0 <= k < spec_app_name_idx(data) ==> (#[trigger] data[k]).name@
            != "appName"@,
    decreases data.len(),
{
    if data.len() > 0 && data[0].name@ != "appName"@ {
        lemma_app_name_idx(data.drop_first());
        assert(forall|k: int|
            1 <= k < spec_app_name_idx(data) ==> data[k] == data.drop_first()[k - 1]);
    }
}

/// What overwriting a declared `appName` spec leaves: its name and message
/// kept, everything else forced to the synthesized string spec with the
/// given default.
pub open spec fn spec_app_entry_overwritten(
    o: TemplateData,
    app: Seq<char>,
    n: TemplateData,
) -> bool {
    &&& n.name == o.name
    &&& n.message == o.message
    &&& n.data_type == TemplateDataType::String
    &&& n.values is None
    &&& n.required == false
    &&& n.default_value matches Some(TemplateValue::Str(s)) && s@ == app
}

/// The synthesized `appName` spec inserted when none was declared.
pub open spec fn spec_app_entry_fresh(app: Seq<char>, n: TemplateData) -> bool {
    &&& n.name@ == "appName"@
    &&& n.message@ == "Enter app name: "@
    &&& n.data_type == TemplateDataType::String
    &&& n.values is None
    &&& n.required == false
    &&& n.default_value matches Some(TemplateValue::Str(s)) && s@ == app
}

/// How the data specs look after the `appName` injection: the first declared
/// `appName` spec overwritten in place, or a fresh synthesized spec at the
/// front when none was declared; every other spec untouched.
pub open spec fn spec_injected(
    old_data: Seq<TemplateData>,
    app: Seq<char>,
    new_data: Seq<TemplateData>,
) -> bool {
    let j = spec_app_name_idx(old_data);
    if j < old_data.len() {
        &&& new_data.len() == old_data.len()
        &&& forall|k: int| 0 <= k < old_data.len() && k != j ==> new_data[k] == old_data[k]
        &&& spec_app_entry_overwritten(old_data[j], app, new_data[j])
    } else {
        &&& new_data.len() == old_data.len() + 1
        &&& forall|k: int| 0 <= k < old_data.len() ==> new_data[k + 1] == old_data[k]
        &&& spec_app_entry_fresh(app, new_data[0])
    }
}

/// Injects the synthesized `appName` spec: a declared one has its type,
/// allowed values, requiredness and default overwritten (its message kept);
/// otherwise a fresh optional spec is inserted first, so it is asked first.
#[verifier::loop_isolation(false)]
pub fn inject_app_name(data: &mut Vec<TemplateData>, app_name: &str)
    ensures
        spec_injected(old(data)@, app_name@, final(data)@),
{
    proof {
        lemma_app_name_idx(data@);
    }
    let ghost orig = data@;
    let mut j: usize = 0;
    while j < data.len()
        invariant
            data@ == orig,
            0 <= j <= orig.len(),
            forall|k: int| 0 <= k < j ==> (#[trigger] orig[k]).name@ != "appName"@,
        decreases orig.len() - j,
    {
        if str_eq(data[j].name.as_str(), "appName") {
            proof {
                lemma_app_name_idx(orig);
                if spec_app_name_idx(orig) < j {
                    assert(orig[spec_app_name_idx(orig)].name@ == "appName"@);
                }
                if spec_app_name_idx(orig) > j {
                    assert(orig[j as int].name@ != "appName"@);
                }
            }
            data[j].data_type = TemplateDataType::String;
            data[j].values = None;
            data[j].required = false;
            data[j].default_value = Some(TemplateValue::Str(String::from_str(app_name)));
            proof {
                assert(forall|k: int|
                    0 <= k < orig.len() && k != j ==> data@[k] == orig[k]);
            }
            return ;
        }
        j = j + 1;
    }
    proof {
        lemma_app_name_idx(orig);
        if spec_app_name_idx(orig) < orig.len() {
            assert(orig[spec_app_name_idx(orig)].name@ == "appName"@);
        }
    }
    let fresh = TemplateData {
        name: String::from_str("appName"),
        data_type: TemplateDataType::String,
        values: None,
        message: String::from_str("Enter app name: "),
        required: false,
        default_value: Some(TemplateValue::Str(String::from_str(app_name))),
    };
    data.insert(0, fresh);
    proof {
        assert(forall|k: int| 0 <= k < orig.len() ==> data@[k + 1] == orig[k]);
    }
}

/// How one data spec looks after default-value substitution: an optional
/// string spec with a string default gets the variables in that default
/// substituted; every other spec is untouched.
pub open spec fn spec_default_substituted(
    o: TemplateData,
    extras: Seq<(String, String)>,
    env: Seq<(String, String)>,
    n: TemplateData,
) -> bool {
    if o.data_type == TemplateDataType::String && !o.required && o.default_value matches Some(
        TemplateValue::Str(_),
    ) {
        &&& n.name == o.name
        &&& n.data_type == o.data_type
        &&& n.values == o.values
        &&& n.message == o.message
        &&& n.required == o.required
        &&& n.default_value matches Some(TemplateValue::Str(ns)) && ns@ == spec_substitute(
            o.default_value.unwrap()->Str_0@,
            Seq::empty(),
            extras,
            env,
        )
    } else {
        n == o
    }
}

pub open spec fn spec_defaults_substituted(
    old_data: Seq<TemplateData>,
    extras: Seq<(String, String)>,
    env: Seq<(String, String)>,
    new_data: Seq<TemplateData>,
) -> bool {
    &&& new_data.len() == old_data.len()
    &&& forall|i: int|
        0 <= i < old_data.len() ==> spec_default_substituted(
            old_data[i],
            extras,
            env,
            #[trigger] new_data[i],
        )
}

/// Substitutes variables into the default value of every optional string
/// spec, against the synthesized extra variables and the environment; the
/// collected data plays no part here, since nothing is collected yet.
#[verifier::loop_isolation(false)]
pub fn substitute_default_values(data: &mut Vec<TemplateData>, extras: &TextMap, env: &TextMap)
    ensures
        spec_defaults_substituted(old(data)@, extras@, env@, final(data)@),
{
    let ghost orig = data@;
    let empty_data: crate::var_subs::CollectedData = Vec::new();
    let mut i: usize = 0;
    while i < data.len()
        invariant
            data@.len() == orig.len(),
            0 <= i <= orig.len(),
            empty_data@ =~= Seq::<(String, TemplateValue)>::empty(),
            forall|k: int| i <= k < orig.len() ==> data@[k] == orig[k],
            forall|k: int|
                0 <= k < i ==> spec_default_substituted(orig[k], extras@, env@, #[trigger] data@[k]),
        decreases orig.len() - i,
    {
        let is_subject = match (&data[i].data_type, data[i].required, &data[i].default_value) {
            (TemplateDataType::String, false, Some(TemplateValue::Str(_))) => true,
            _ => false,
        };
        if is_subject {
            let s = match &data[i].default_value {
                Some(TemplateValue::Str(s)) => s.clone(),
                _ => String::new(),
            };
            let substituted = substitute_variable_in_text(s.as_str(), &empty_data, extras, env);
            data[i].default_value = Some(TemplateValue::Str(substituted));
        }
        i = i + 1;
    }
}

/// How one declared override value reads as a `CondFileMap`: a bare string
/// is the check; an object carries a `check` string and optionally a
/// `newName` string (a `newName` of another shape counts as none).
pub open spec fn spec_cond_matches(val: TemplateValue, c: CondFileMap) -> bool {
    match val {
        TemplateValue::Str(s) => c.check == s && c.new_name is None,
        TemplateValue::Obj(m) => {
            &&& match spec_assoc_value(m@, "check"@) {
                Some(TemplateValue::Str(cs)) => c.check == cs,
                _ => false,
            }
            &&& match spec_assoc_value(m@, "newName"@) {
                Some(TemplateValue::Str(nn)) => c.new_name == Some(nn),
                _ => c.new_name is None,
            }
        },
        _ => false,
    }
}

/// Whether one declared override value has an accepted shape.
pub open spec fn spec_cond_ok(val: TemplateValue) -> bool {
    match val {
        TemplateValue::Str(_) => true,
        TemplateValue::Obj(m) => spec_assoc_value(m@, "check"@) matches Some(
            TemplateValue::Str(_),
        ),
        _ => false,
    }
}

/// Whether an override key names an existing entry under the template
/// source.
pub open spec fn spec_file_key_ok(key: String, src: crate::tree::DirNode) -> bool {
    crate::pathutil::spec_normalized(key@) matches Some(comps) && crate::tree::spec_has_entry(
        src,
        comps,
    )
}

/// How one resolved override entry relates to the declared one: the key
/// normalized to its plain source-relative form, the value read as a
/// `CondFileMap`.
pub open spec fn spec_files_entry_resolved(
    pair: (String, TemplateValue),
    out: (String, CondFileMap),
) -> bool {
    &&& crate::pathutil::spec_normalized(pair.0@) matches Some(comps) && out.0@
        == crate::pathutil::spec_join_segments(comps)
    &&& spec_cond_matches(pair.1, out.1)
}

/// The error text one unacceptable override entry produces: an object
/// without its check names the key, any other wrong shape gets the fixed
/// text, and a key that names nothing under the source is named.
pub open spec fn spec_files_entry_err(
    pair: (String, TemplateValue),
    src: crate::tree::DirNode,
) -> Seq<char> {
    if !spec_cond_ok(pair.1) {
        match pair.1 {
            TemplateValue::Obj(_) => "The 'files' doesn't have handlebars formatted 'check' condition for: "@
                + pair.0@,
            _ => "The 'files' allows only string or a map as condition"@,
        }
    } else {
        "A path key in 'files' attribute does not exist: "@ + pair.0@
    }
}

/// Whether one declared override entry is acceptable: its value has an
/// accepted shape and its key names an existing entry.
pub open spec fn spec_files_entry_ok(
    pair: (String, TemplateValue),
    src: crate::tree::DirNode,
) -> bool {
    spec_cond_ok(pair.1) && spec_file_key_ok(pair.0, src)
}

/// Index of the first unacceptable override entry, or the length when all
/// are acceptable.
pub open spec fn spec_first_bad_file(
    files: Seq<(String, TemplateValue)>,
    src: crate::tree::DirNode,
) -> int
    decreases files.len(),
{
    if files.len() == 0 {
        0
    } else if !spec_files_entry_ok(files[0], src) {
        0
    } else {
        1 + spec_first_bad_file(files.drop_first(), src)
    }
}

pub proof fn lemma_first_bad_file(files: Seq<(String, TemplateValue)>, src: crate::tree::DirNode)
    ensures
        0 <= spec_first_bad_file(files, src) <= files.len(),
        forall|k: int|
            0 <= k < spec_first_bad_file(files, src) ==> spec_files_entry_ok(
                #[trigger] files[k],
                src,
            ),
        spec_first_bad_file(files, src) < files.len() ==> !spec_files_entry_ok(
            files[spec_first_bad_file(files, src)],
            src,
        ),
    decreases files.len(),
{
    if files.len() > 0 && spec_files_entry_ok(files[0], src) {
        lemma_first_bad_file(files.drop_first(), src);
        assert(forall|k: int|
            1 <= k < spec_first_bad_file(files, src) ==> files[k] == files.drop_first()[k - 1]);
    }
}

pub open spec fn spec_files_map_resolved(
    files: Seq<(String, TemplateValue)>,
    fm: Seq<(String, CondFileMap)>,
) -> bool {
    &&& fm.len() == files.len()
    &&& forall|i: int|
        0 <= i < files.len() ==> spec_files_entry_resolved(files[i], #[trigger] fm[i])
}

/// Reads the declared file overrides, validates that every key names an
/// existing entry under the template source, and re-keys each by its
/// normalized source-relative path. Fails naming the first offending key.
#[verifier::loop_isolation(false)]
pub fn resolve_files_map(
    files: &Vec<(String, TemplateValue)>,
    source_dir: &crate::tree::DirNode,
) -> (r: Result<Vec<(String, CondFileMap)>, Error>)
    ensures
        r matches Ok(fm) ==> spec_files_map_resolved(files@, fm@),
        r is Ok <==> forall|i: int|
            0 <= i < files@.len() ==> spec_cond_ok((#[trigger] files@[i]).1) && spec_file_key_ok(
                files@[i].0,
                *source_dir,
            ),
        r matches Err(e) ==> ({
            let i = spec_first_bad_file(files@, *source_dir);
            i < files@.len() && e@ == spec_files_entry_err(files@[i], *source_dir)
        }),
{
    let mut out: Vec<(String, CondFileMap)> = Vec::new();
    let mut i: usize = 0;
    while i < files.len()
        invariant
            0 <= i <= files@.len(),
            out@.len() == i,
            forall|k: int|
                0 <= k < i ==> spec_files_entry_resolved(files@[k], #[trigger] out@[k]),
            forall|k: int|
                0 <= k < i ==> spec_cond_ok((#[trigger] files@[k]).1) && spec_file_key_ok(
                    files@[k].0,
                    *source_dir,
                ),
        decreases files@.len() - i,
    {
        let key = &files[i].0;
        let val = &files[i].1;
        let cond = match val {
            TemplateValue::Str(s) => CondFileMap { check: s.clone(), new_name: None },
            TemplateValue::Obj(_) => {
                let member = crate::value::get_member(val, "check");
                match member {
                    Some(TemplateValue::Str(cs)) => {
                        let new_name = match crate::value::get_member(val, "newName") {
                            Some(TemplateValue::Str(nn)) => Some(nn.clone()),
                            _ => None,
                        };
                        CondFileMap { check: cs.clone(), new_name }
                    },
                    _ => {
                        let mut msg = String::from_str(
                            "The 'files' doesn't have handlebars formatted 'check' condition for: ",
                        );
                        msg.append(key.as_str());
                        proof {
                            assert(!spec_cond_ok(files@[i as int].1));
                            lemma_first_bad_file(files@, *source_dir);
                            assert(spec_first_bad_file(files@, *source_dir) == i as int);
                            assert(msg@ == spec_files_entry_err(files@[i as int], *source_dir));
                        }
                        return Err(Error::new(msg));
                    },
                }
            },
            _ => {
                let msg = String::from_str(
                    "The 'files' allows only string or a map as condition",
                );
                proof {
                    assert(!spec_cond_ok(files@[i as int].1));
                    lemma_first_bad_file(files@, *source_dir);
                    assert(spec_first_bad_file(files@, *source_dir) == i as int);
                    assert(msg@ == spec_files_entry_err(files@[i as int], *source_dir));
                }
                return Err(Error::new(msg));
            },
        };
        proof {
            assert(spec_cond_ok(files@[i as int].1));
        }
        let comps = match crate::pathutil::normalize_path(key.as_str()) {
            Some(c) => c,
            None => {
                let mut msg = String::from_str(
                    "A path key in 'files' attribute does not exist: ",
                );
                msg.append(key.as_str());
                proof {
                    assert(!spec_file_key_ok(files@[i as int].0, *source_dir));
                    lemma_first_bad_file(files@, *source_dir);
                    assert(spec_first_bad_file(files@, *source_dir) == i as int);
                    assert(msg@ == spec_files_entry_err(files@[i as int], *source_dir));
                }
                return Err(Error::new(msg));
            },
        };
        if !crate::tree::has_entry(source_dir, &comps) {
            let mut msg = String::from_str("A path key in 'files' attribute does not exist: ");
            msg.append(key.as_str());
            proof {
                assert(!spec_file_key_ok(files@[i as int].0, *source_dir));
                lemma_first_bad_file(files@, *source_dir);
                assert(spec_first_bad_file(files@, *source_dir) == i as int);
                assert(msg@ == spec_files_entry_err(files@[i as int], *source_dir));
            }
            return Err(Error::new(msg));
        }
        let resolved = crate::pathutil::join_segments(&comps);
        out.push((resolved, cond));
        i = i + 1;
    }
    Ok(out)
}

/// The path the resolved template source has, as text: the template root
/// itself for the bare root, else the root joined with the normalized
/// source path.
pub open spec fn spec_source_path(template_dir: Seq<char>, comps: Seq<Seq<char>>) -> Seq<char> {
    if comps.len() == 0 {
        template_dir
    } else {
        crate::pathutil::spec_join_rel(template_dir, crate::pathutil::spec_join_segments(comps))
    }
}

/// The five synthesized extra variables, pinned entry by entry.
pub open spec fn spec_extras_map(
    template_dir: Seq<char>,
    source_path: Seq<char>,
    project_dir: Seq<char>,
    current_dir: Seq<char>,
    extras: Seq<(String, String)>,
) -> bool {
    &&& extras.len() == 5
    &&& extras[0].0@ == "APP_NAME"@
    &&& extras[0].1@ == match crate::pathutil::spec_base_name(project_dir) {
        Some(n) => n,
        None => Seq::<char>::empty(),
    }
    &&& extras[1].0@ == "APP_FULL_PATH"@
    &&& extras[1].1@ == project_dir
    &&& extras[2].0@ == "APP_REL_PATH"@
    &&& extras[2].1@ == crate::post_generator::spec_rel_path_var(project_dir, current_dir)
    &&& extras[3].0@ == "TEMPLATE_PATH"@
    &&& extras[3].1@ == template_dir
    &&& extras[4].0@ == "TEMPLATE_SOURCE_PATH"@
    &&& extras[4].1@ == source_path
}

/// How the data specs look once resolution is done: the `appName` injection
/// applied first (when the project directory has a base name), then the
/// default-value substitution against the synthesized extras and the
/// environment.
pub open spec fn spec_data_resolved(
    old_data: Seq<TemplateData>,
    template_dir: Seq<char>,
    source_path: Seq<char>,
    project_dir: Seq<char>,
    current_dir: Seq<char>,
    env: Seq<(String, String)>,
    new_data: Seq<TemplateData>,
) -> bool {
    exists|mid: Seq<TemplateData>, extras: Seq<(String, String)>|
        #![trigger spec_defaults_substituted(mid, extras, env, new_data)]
        {
            &&& spec_extras_map(template_dir, source_path, project_dir, current_dir, extras)
            &&& match crate::pathutil::spec_base_name(project_dir) {
                Some(app) => spec_injected(old_data, app, mid),
                None => mid == old_data,
            }
            &&& spec_defaults_substituted(mid, extras, env, new_data)
        }
}

/// Normalizes a parsed config against the template tree and the project
/// context, in place: the source path and extension defaulted, the
/// synthesized `appName` spec injected, string defaults substituted, and the
/// declared file overrides validated and re-keyed. Everything else is kept
/// as parsed.
pub fn resolve_template_config(
    template_config: &mut TemplateConfig,
    template_tree: &crate::tree::DirNode,
    template_dir: &str,
    project_dir: &str,
    current_dir: &str,
    env: &TextMap,
) -> (r: Result<(), Error>)
    ensures
        ({
            let path0 = if old(template_config).template.path@.len() == 0 {
                "."@
            } else {
                old(template_config).template.path@
            };
            let ext0 = if old(template_config).template.extension@.len() == 0 {
                ".boiler"@
            } else {
                old(template_config).template.extension@
            };
            match crate::pathutil::spec_normalized(path0) {
                None => r matches Err(e) && e@ == "Template source not found"@,
                Some(comps) => match crate::tree::spec_find_dir(*template_tree, comps) {
                    None => r matches Err(e) && e@ == "Template source not found"@,
                    Some(src) => {
                        &&& (r is Ok ==> {
                            &&& final(template_config).version == old(template_config).version
                            &&& final(template_config).template.engine == old(
                                template_config,
                            ).template.engine
                            &&& final(template_config).template.path@ == path0
                            &&& final(template_config).template.extension@ == ext0
                            &&& final(template_config).post_generate == old(
                                template_config,
                            ).post_generate
                            &&& final(template_config).help_text == old(template_config).help_text
                            &&& final(template_config).files == old(template_config).files
                            &&& spec_data_resolved(
                                old(template_config).data@,
                                template_dir@,
                                spec_source_path(template_dir@, comps),
                                project_dir@,
                                current_dir@,
                                env@,
                                final(template_config).data@,
                            )
                            &&& match old(template_config).files {
                                None => final(template_config).files_map is None,
                                Some(files) => final(template_config).files_map matches Some(fm)
                                    && spec_files_map_resolved(files@, fm@),
                            }
                        })
                        &&& (r is Ok <==> match old(template_config).files {
                            None => true,
                            Some(files) => forall|i: int|
                                0 <= i < files@.len() ==> spec_cond_ok((#[trigger] files@[i]).1)
                                    && spec_file_key_ok(files@[i].0, src),
                        })
                        &&& (r matches Err(e) ==> (old(template_config).files matches Some(files)
                            && ({
                            let i = spec_first_bad_file(files@, src);
                            i < files@.len() && e@ == spec_files_entry_err(files@[i], src)
                        })))
                    },
                },
            }
        }),
        r is Err ==> final(template_config).files_map == old(template_config).files_map,
{
    if template_config.template.path.unicode_len() == 0 {
        template_config.template.path = String::from_str(".");
    }
    if template_config.template.extension.unicode_len() == 0 {
        template_config.template.extension = String::from_str(".boiler");
    }
    let ghost data0 = template_config.data@;
    match crate::pathutil::base_name(project_dir) {
        Some(app) => {
            inject_app_name(&mut template_config.data, app.as_str());
        },
        None => (),
    }
    let comps = match crate::pathutil::normalize_path(template_config.template.path.as_str()) {
        Some(c) => c,
        None => {
            return Err(Error::new(String::from_str("Template source not found")));
        },
    };
    let source_dir = match crate::tree::find_dir(template_tree, &comps) {
        Some(d) => d,
        None => {
            return Err(Error::new(String::from_str("Template source not found")));
        },
    };
    let source_path = if comps.len() == 0 {
        String::from_str(template_dir)
    } else {
        let joined = crate::pathutil::join_segments(&comps);
        crate::pathutil::join_rel(template_dir, joined.as_str())
    };
    let extras = crate::post_generator::gen_extra_template_data(
        template_dir,
        source_path.as_str(),
        project_dir,
        current_dir,
    );
    substitute_default_values(&mut template_config.data, &extras, env);
    proof {
        assert(spec_extras_map(
            template_dir@,
            spec_source_path(template_dir@, comps.deep_view()),
            project_dir@,
            current_dir@,
            extras@,
        ));
        assert(spec_data_resolved(
            data0,
            template_dir@,
            spec_source_path(template_dir@, comps.deep_view()),
            project_dir@,
            current_dir@,
            env@,
            template_config.data@,
        ));
    }
    let fm = match &template_config.files {
        Some(files) => {
            match resolve_files_map(files, source_dir) {
                Ok(fm) => Some(fm),
                Err(e) => {
                    return Err(e);
                },
            }
        },
        None => None,
    };
    template_config.files_map = fm;
    Ok(())
}

/// Which config file a template root offers, in priority order: the JSON
/// spelling first, then the two YAML spellings; a name counts only when it
/// is a file whose text could be read.
/// The readable text of a file entry directly under the root, by name.
pub open spec fn spec_config_file_text(root: crate::tree::DirNode, name: Seq<char>) -> Option<
    Seq<char>,
> {
    match crate::tree::spec_find_child(root.entries@, name) {
        Some(crate::tree::Entry::File(f)) => match f.text {
            Some(t) => Some(t@),
            None => None,
        },
        _ => None,
    }
}

pub open spec fn spec_pick_config(root: crate::tree::DirNode) -> Option<(
    crate::types::ConfigFileType,
    Seq<char>,
)> {
    if spec_config_file_text(root, "boilerplato.json"@) is Some {
        Some(
            (
                crate::types::ConfigFileType::JSON,
                spec_config_file_text(root, "boilerplato.json"@).unwrap(),
            ),
        )
    } else if spec_config_file_text(root, "boilerplato.yaml"@) is Some {
        Some(
            (
                crate::types::ConfigFileType::YAML,
                spec_config_file_text(root, "boilerplato.yaml"@).unwrap(),
            ),
        )
    } else if spec_config_file_text(root, "boilerplato.yml"@) is Some {
        Some(
            (
                crate::types::ConfigFileType::YAML,
                spec_config_file_text(root, "boilerplato.yml"@).unwrap(),
            ),
        )
    } else {
        None
    }
}


/// Layers the invalid-config context, naming the offending file, over a
/// parse failure; a parsed config passes through.
fn with_invalid_config_context(r: Result<TemplateConfig, Error>, file_name: &str) -> (out: Result<
    TemplateConfig,
    Error,
>)
    ensures
        r matches Ok(c) ==> (out matches Ok(c2) && c2 == c),
        r is Err <==> out is Err,
        r matches Err(e0) ==> (out matches Err(e) && e@
            == "Invalid config file in the provided template: "@ + file_name@ + ": "@ + e0@),
{
    match r {
        Ok(c) => Ok(c),
        Err(e) => {
            let mut ctx = String::from_str("Invalid config file in the provided template: ");
            ctx.append(file_name);
            let wrapped = crate::error::ErrorExt::context(e.message().clone(), ctx.as_str());
            proof {
                assert(wrapped@ =~= "Invalid config file in the provided template: "@ + file_name@
                    + ": "@ + e@);
            }
            Err(wrapped)
        },
    }
}

/// The name of the config file the discovery picks, where one is picked.
pub open spec fn spec_picked_config_name(root: crate::tree::DirNode) -> Seq<char> {
    if spec_config_file_text(root, "boilerplato.json"@) is Some {
        "boilerplato.json"@
    } else if spec_config_file_text(root, "boilerplato.yaml"@) is Some {
        "boilerplato.yaml"@
    } else {
        "boilerplato.yml"@
    }
}

/// Reads the template's config out of the template tree: the first of the
/// three accepted file names that reads as text, parsed in its spelling.
pub fn extract_template_config(template_tree: &crate::tree::DirNode) -> (r: Result<
    TemplateConfig,
    Error,
>)
    ensures
        match spec_pick_config(*template_tree) {
            Some((ft, text)) => crate::config::spec_parse_outcome(ft, text, r),
            None => r matches Err(e) && e@
                == "No config file found in the provided template: boilerplato.json or boilerplato.yaml or boilerplato.yml file is required"@,
        },
        r matches Err(e) ==> (spec_pick_config(*template_tree) is Some
            ==> crate::strutil::spec_starts_with(
            e@,
            "Invalid config file in the provided template: "@ + spec_picked_config_name(
                *template_tree,
            ) + ": "@,
        )),
{
    match crate::tree::find_child(&template_tree.entries, "boilerplato.json") {
        Some(crate::tree::Entry::File(f)) => {
            match &f.text {
                Some(t) => {
                    let parsed = TemplateConfig::parse(
                        t.as_str(),
                        crate::types::ConfigFileType::JSON,
                    );
                    let ghost parsed0 = parsed;
                    let r = with_invalid_config_context(parsed, "boilerplato.json");
                    proof {
                        assert(spec_picked_config_name(*template_tree) == "boilerplato.json"@);
                        if parsed0 is Err {
                            crate::strutil::lemma_concat_starts_with(
                                "Invalid config file in the provided template: "@
                                    + "boilerplato.json"@ + ": "@,
                                (parsed0->Err_0)@,
                            );
                        }
                    }
                    return r;
                },
                None => (),
            }
        },
        _ => (),
    }
    match crate::tree::find_child(&template_tree.entries, "boilerplato.yaml") {
        Some(crate::tree::Entry::File(f)) => {
            match &f.text {
                Some(t) => {
                    let parsed = TemplateConfig::parse(
                        t.as_str(),
                        crate::types::ConfigFileType::YAML,
                    );
                    let ghost parsed0 = parsed;
                    let r = with_invalid_config_context(parsed, "boilerplato.yaml");
                    proof {
                        assert(spec_config_file_text(*template_tree, "boilerplato.json"@)
                            is None);
                        assert(spec_picked_config_name(*template_tree) == "boilerplato.yaml"@);
                        if parsed0 is Err {
                            crate::strutil::lemma_concat_starts_with(
                                "Invalid config file in the provided template: "@
                                    + "boilerplato.yaml"@ + ": "@,
                                (parsed0->Err_0)@,
                            );
                        }
                    }
                    return r;
                },
                None => (),
            }
        },
        _ => (),
    }
    match crate::tree::find_child(&template_tree.entries, "boilerplato.yml") {
        Some(crate::tree::Entry::File(f)) => {
            match &f.text {
                Some(t) => {
                    let parsed = TemplateConfig::parse(
                        t.as_str(),
                        crate::types::ConfigFileType::YAML,
                    );
                    let ghost parsed0 = parsed;
                    let r = with_invalid_config_context(parsed, "boilerplato.yml");
                    proof {
                        assert(spec_config_file_text(*template_tree, "boilerplato.json"@)
                            is None);
                        assert(spec_config_file_text(*template_tree, "boilerplato.yaml"@)
                            is None);
                        assert(spec_picked_config_name(*template_tree) == "boilerplato.yml"@);
                        if parsed0 is Err {
                            crate::strutil::lemma_concat_starts_with(
                                "Invalid config file in the provided template: "@
                                    + "boilerplato.yml"@ + ": "@,
                                (parsed0->Err_0)@,
                            );
                        }
                    }
                    return r;
                },
                None => (),
            }
        },
        _ => (),
    }
    Err(
        Error::new(
            String::from_str(
                "No config file found in the provided template: boilerplato.json or boilerplato.yaml or boilerplato.yml file is required",
            ),
        ),
    )
}

} // verus!
