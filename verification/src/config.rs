use vstd::prelude::*;
use crate::error::{Error, ErrorExt};
use crate::strutil::str_eq;
use crate::types::{
    spec_config_matches, spec_config_ok, spec_data_matches, spec_data_ok, spec_data_type_of,
    spec_meta_matches, spec_meta_ok, CondFileMap, ConfigFileType, TemplateConfig, TemplateData,
    TemplateDataType, TemplateMeta,
};
use crate::value::{spec_assoc_value, TemplateValue};

verus! {

/// The first of the two options that holds a value.
pub open spec fn found_or(
    m: Option<TemplateValue>,
    rest: Option<TemplateValue>,
) -> Option<TemplateValue> {
    if m is Some {
        m
    } else {
        rest
    }
}

/// The declared type a type name stands for.
pub fn parse_data_type(t: &str) -> (r: Option<TemplateDataType>)
    ensures
        r == spec_data_type_of(t@),
{
    if str_eq(t, "string") {
        Some(TemplateDataType::String)
    } else if str_eq(t, "number") {
        Some(TemplateDataType::Number)
    } else if str_eq(t, "bool") {
        Some(TemplateDataType::Bool)
    } else if str_eq(t, "array[string]") {
        Some(TemplateDataType::ArrayString)
    } else if str_eq(t, "array[number]") {
        Some(TemplateDataType::ArrayNumber)
    } else if str_eq(t, "semver") {
        Some(TemplateDataType::Semver)
    } else {
        None
    }
}

/// Reads the template metadata out of its parsed value; succeeds exactly on
/// a valid shape.
#[verifier::loop_isolation(false)]
pub fn meta_from_value(v: TemplateValue) -> (r: Result<TemplateMeta, Error>)
    ensures
        r matches Ok(m) ==> spec_meta_matches(v, m),
        r is Ok <==> spec_meta_ok(v),
{
    let mut fields = match v {
        TemplateValue::Obj(f) => f,
        _ => {
            return Err(
                Error::new(String::from_str("The 'template' attribute must be an object")),
            );
        },
    };
    let ghost orig = fields@;
    let mut m_engine: Option<TemplateValue> = None;
    let mut m_path: Option<TemplateValue> = None;
    let mut m_extension: Option<TemplateValue> = None;
    while fields.len() > 0
        invariant
            found_or(m_engine, spec_assoc_value(fields@, "engine"@)) == spec_assoc_value(
                orig,
                "engine"@,
            ),
            found_or(m_path, spec_assoc_value(fields@, "path"@)) == spec_assoc_value(
                orig,
                "path"@,
            ),
            found_or(m_extension, spec_assoc_value(fields@, "extension"@)) == spec_assoc_value(
                orig,
                "extension"@,
            ),
        decreases fields@.len(),
    {
        let ghost pre = fields@;
        let (k, val) = fields.remove(0);
        proof {
            reveal_strlit("engine");
            reveal_strlit("path");
            reveal_strlit("extension");
            assert(("engine"@).len() == 6);
            assert(("path"@).len() == 4);
            assert(("extension"@).len() == 9);
            assert(pre.drop_first() =~= fields@);
            assert(pre[0].0 == k && pre[0].1 == val);
        }
        let is_engine = str_eq(k.as_str(), "engine");
        let is_path = str_eq(k.as_str(), "path");
        let is_extension = str_eq(k.as_str(), "extension");
        proof {
            assert(spec_assoc_value(pre, "engine"@) == if is_engine {
                Some(val)
            } else {
                spec_assoc_value(fields@, "engine"@)
            });
            assert(spec_assoc_value(pre, "path"@) == if is_path {
                Some(val)
            } else {
                spec_assoc_value(fields@, "path"@)
            });
            assert(spec_assoc_value(pre, "extension"@) == if is_extension {
                Some(val)
            } else {
                spec_assoc_value(fields@, "extension"@)
            });
        }
        if is_engine {
            if m_engine.is_none() {
                m_engine = Some(val);
            }
        } else if is_path {
            if m_path.is_none() {
                m_path = Some(val);
            }
        } else if is_extension {
            if m_extension.is_none() {
                m_extension = Some(val);
            }
        }
    }
    proof {
        assert(spec_assoc_value(fields@, "engine"@) is None);
        assert(spec_assoc_value(fields@, "path"@) is None);
        assert(spec_assoc_value(fields@, "extension"@) is None);
    }
    let engine = match m_engine {
        Some(TemplateValue::Str(s)) => s,
        _ => {
            return Err(
                Error::new(
                    String::from_str("The 'template' attribute needs an 'engine' string"),
                ),
            );
        },
    };
    let path = match m_path {
        Some(TemplateValue::Str(s)) => s,
        None => String::new(),
        _ => {
            return Err(
                Error::new(String::from_str("The 'template' attribute's 'path' must be a string")),
            );
        },
    };
    let extension = match m_extension {
        Some(TemplateValue::Str(s)) => s,
        None => String::new(),
        _ => {
            return Err(
                Error::new(
                    String::from_str("The 'template' attribute's 'extension' must be a string"),
                ),
            );
        },
    };
    Ok(TemplateMeta { engine, path, extension })
}

/// Reads one declared user-input field out of its parsed value; succeeds
/// exactly on a valid shape.
#[verifier::loop_isolation(false)]
pub fn data_from_value(v: TemplateValue) -> (r: Result<TemplateData, Error>)
    ensures
        r matches Ok(d) ==> spec_data_matches(v, d),
        r is Ok <==> spec_data_ok(v),
{
    let mut fields = match v {
        TemplateValue::Obj(f) => f,
        _ => {
            return Err(Error::new(String::from_str("A 'data' entry must be an object")));
        },
    };
    let ghost orig = fields@;
    let mut m_name: Option<TemplateValue> = None;
    let mut m_type: Option<TemplateValue> = None;
    let mut m_values: Option<TemplateValue> = None;
    let mut m_message: Option<TemplateValue> = None;
    let mut m_required: Option<TemplateValue> = None;
    let mut m_default: Option<TemplateValue> = None;
    while fields.len() > 0
        invariant
            found_or(m_name, spec_assoc_value(fields@, "name"@)) == spec_assoc_value(
                orig,
                "name"@,
            ),
            found_or(m_type, spec_assoc_value(fields@, "type"@)) == spec_assoc_value(
                orig,
                "type"@,
            ),
            found_or(m_values, spec_assoc_value(fields@, "values"@)) == spec_assoc_value(
                orig,
                "values"@,
            ),
            found_or(m_message, spec_assoc_value(fields@, "message"@)) == spec_assoc_value(
                orig,
                "message"@,
            ),
            found_or(m_required, spec_assoc_value(fields@, "required"@)) == spec_assoc_value(
                orig,
                "required"@,
            ),
            found_or(m_default, spec_assoc_value(fields@, "defaultValue"@)) == spec_assoc_value(
                orig,
                "defaultValue"@,
            ),
        decreases fields@.len(),
    {
        let ghost pre = fields@;
        let (k, val) = fields.remove(0);
        proof {
            reveal_strlit("name");
            reveal_strlit("type");
            reveal_strlit("values");
            reveal_strlit("message");
            reveal_strlit("required");
            reveal_strlit("defaultValue");
            assert(("name"@).len() == 4);
            assert(("type"@).len() == 4);
            assert(("values"@).len() == 6);
            assert(("message"@).len() == 7);
            assert(("required"@).len() == 8);
            assert(("defaultValue"@).len() == 12);
            assert(("name"@)[0] == 'n' && ("type"@)[0] == 't');
            assert(pre.drop_first() =~= fields@);
            assert(pre[0].0 == k && pre[0].1 == val);
        }
        let is_name = str_eq(k.as_str(), "name");
        let is_type = str_eq(k.as_str(), "type");
        let is_values = str_eq(k.as_str(), "values");
        let is_message = str_eq(k.as_str(), "message");
        let is_required = str_eq(k.as_str(), "required");
        let is_default = str_eq(k.as_str(), "defaultValue");
        proof {
            assert(spec_assoc_value(pre, "name"@) == if is_name {
                Some(val)
            } else {
                spec_assoc_value(fields@, "name"@)
            });
            assert(spec_assoc_value(pre, "type"@) == if is_type {
                Some(val)
            } else {
                spec_assoc_value(fields@, "type"@)
            });
            assert(spec_assoc_value(pre, "values"@) == if is_values {
                Some(val)
            } else {
                spec_assoc_value(fields@, "values"@)
            });
            assert(spec_assoc_value(pre, "message"@) == if is_message {
                Some(val)
            } else {
                spec_assoc_value(fields@, "message"@)
            });
            assert(spec_assoc_value(pre, "required"@) == if is_required {
                Some(val)
            } else {
                spec_assoc_value(fields@, "required"@)
            });
            assert(spec_assoc_value(pre, "defaultValue"@) == if is_default {
                Some(val)
            } else {
                spec_assoc_value(fields@, "defaultValue"@)
            });
        }
        if is_name {
            if m_name.is_none() {
                m_name = Some(val);
            }
        } else if is_type {
            if m_type.is_none() {
                m_type = Some(val);
            }
        } else if is_values {
            if m_values.is_none() {
                m_values = Some(val);
            }
        } else if is_message {
            if m_message.is_none() {
                m_message = Some(val);
            }
        } else if is_required {
            if m_required.is_none() {
                m_required = Some(val);
            }
        } else if is_default {
            if m_default.is_none() {
                m_default = Some(val);
            }
        }
    }
    proof {
        assert(spec_assoc_value(fields@, "name"@) is None);
        assert(spec_assoc_value(fields@, "type"@) is None);
        assert(spec_assoc_value(fields@, "values"@) is None);
        assert(spec_assoc_value(fields@, "message"@) is None);
        assert(spec_assoc_value(fields@, "required"@) is None);
        assert(spec_assoc_value(fields@, "defaultValue"@) is None);
    }
    let name = match m_name {
        Some(TemplateValue::Str(s)) => s,
        _ => {
            return Err(Error::new(String::from_str("A 'data' entry needs a 'name' string")));
        },
    };
    let data_type = match m_type {
        Some(TemplateValue::Str(t)) => match parse_data_type(t.as_str()) {
            Some(dt) => dt,
            None => {
                return Err(
                    Error::new(String::from_str("A 'data' entry names an unknown 'type'")),
                );
            },
        },
        _ => {
            return Err(Error::new(String::from_str("A 'data' entry needs a 'type' string")));
        },
    };
    let values = match m_values {
        None => None,
        Some(TemplateValue::Null) => None,
        Some(TemplateValue::Arr(a)) => Some(a),
        Some(_) => {
            return Err(
                Error::new(String::from_str("A 'data' entry's 'values' must be an array")),
            );
        },
    };
    let message = match m_message {
        Some(TemplateValue::Str(s)) => s,
        None => String::new(),
        Some(_) => {
            return Err(
                Error::new(String::from_str("A 'data' entry's 'message' must be a string")),
            );
        },
    };
    let required = match m_required {
        Some(TemplateValue::Bool(b)) => b,
        _ => {
            return Err(
                Error::new(String::from_str("A 'data' entry needs a 'required' boolean")),
            );
        },
    };
    let default_value = match m_default {
        None => None,
        Some(TemplateValue::Null) => None,
        Some(other) => Some(other),
    };
    Ok(TemplateData { name, data_type, values, message, required, default_value })
}

/// Reads a whole config out of its parsed value; succeeds exactly on a valid
/// manifest shape, with unknown members ignored.
#[verifier::loop_isolation(false)]
pub fn config_from_value(v: TemplateValue) -> (r: Result<TemplateConfig, Error>)
    ensures
        r matches Ok(c) ==> spec_config_matches(v, c),
        r is Ok <==> spec_config_ok(v),
{
    let mut fields = match v {
        TemplateValue::Obj(f) => f,
        _ => {
            return Err(Error::new(String::from_str("The template config must be an object")));
        },
    };
    let ghost orig = fields@;
    let mut m_version: Option<TemplateValue> = None;
    let mut m_template: Option<TemplateValue> = None;
    let mut m_data: Option<TemplateValue> = None;
    let mut m_files: Option<TemplateValue> = None;
    let mut m_post: Option<TemplateValue> = None;
    let mut m_help: Option<TemplateValue> = None;
    while fields.len() > 0
        invariant
            found_or(m_version, spec_assoc_value(fields@, "version"@)) == spec_assoc_value(
                orig,
                "version"@,
            ),
            found_or(m_template, spec_assoc_value(fields@, "template"@)) == spec_assoc_value(
                orig,
                "template"@,
            ),
            found_or(m_data, spec_assoc_value(fields@, "data"@)) == spec_assoc_value(
                orig,
                "data"@,
            ),
            found_or(m_files, spec_assoc_value(fields@, "files"@)) == spec_assoc_value(
                orig,
                "files"@,
            ),
            found_or(m_post, spec_assoc_value(fields@, "postGenerate"@)) == spec_assoc_value(
                orig,
                "postGenerate"@,
            ),
            found_or(m_help, spec_assoc_value(fields@, "helpText"@)) == spec_assoc_value(
                orig,
                "helpText"@,
            ),
        decreases fields@.len(),
    {
        let ghost pre = fields@;
        let (k, val) = fields.remove(0);
        proof {
            reveal_strlit("version");
            reveal_strlit("template");
            reveal_strlit("data");
            reveal_strlit("files");
            reveal_strlit("postGenerate");
            reveal_strlit("helpText");
            assert(("version"@).len() == 7);
            assert(("template"@).len() == 8);
            assert(("data"@).len() == 4);
            assert(("files"@).len() == 5);
            assert(("postGenerate"@).len() == 12);
            assert(("helpText"@).len() == 8);
            assert(("template"@)[0] == 't' && ("helpText"@)[0] == 'h');
            assert(pre.drop_first() =~= fields@);
            assert(pre[0].0 == k && pre[0].1 == val);
        }
        let is_version = str_eq(k.as_str(), "version");
        let is_template = str_eq(k.as_str(), "template");
        let is_data = str_eq(k.as_str(), "data");
        let is_files = str_eq(k.as_str(), "files");
        let is_post = str_eq(k.as_str(), "postGenerate");
        let is_help = str_eq(k.as_str(), "helpText");
        proof {
            assert(spec_assoc_value(pre, "version"@) == if is_version {
                Some(val)
            } else {
                spec_assoc_value(fields@, "version"@)
            });
            assert(spec_assoc_value(pre, "template"@) == if is_template {
                Some(val)
            } else {
                spec_assoc_value(fields@, "template"@)
            });
            assert(spec_assoc_value(pre, "data"@) == if is_data {
                Some(val)
            } else {
                spec_assoc_value(fields@, "data"@)
            });
            assert(spec_assoc_value(pre, "files"@) == if is_files {
                Some(val)
            } else {
                spec_assoc_value(fields@, "files"@)
            });
            assert(spec_assoc_value(pre, "postGenerate"@) == if is_post {
                Some(val)
            } else {
                spec_assoc_value(fields@, "postGenerate"@)
            });
            assert(spec_assoc_value(pre, "helpText"@) == if is_help {
                Some(val)
            } else {
                spec_assoc_value(fields@, "helpText"@)
            });
        }
        if is_version {
            if m_version.is_none() {
                m_version = Some(val);
            }
        } else if is_template {
            if m_template.is_none() {
                m_template = Some(val);
            }
        } else if is_data {
            if m_data.is_none() {
                m_data = Some(val);
            }
        } else if is_files {
            if m_files.is_none() {
                m_files = Some(val);
            }
        } else if is_post {
            if m_post.is_none() {
                m_post = Some(val);
            }
        } else if is_help {
            if m_help.is_none() {
                m_help = Some(val);
            }
        }
    }
    proof {
        assert(spec_assoc_value(fields@, "version"@) is None);
        assert(spec_assoc_value(fields@, "template"@) is None);
        assert(spec_assoc_value(fields@, "data"@) is None);
        assert(spec_assoc_value(fields@, "files"@) is None);
        assert(spec_assoc_value(fields@, "postGenerate"@) is None);
        assert(spec_assoc_value(fields@, "helpText"@) is None);
    }
    let version = match m_version {
        Some(TemplateValue::Str(s)) => s,
        _ => {
            return Err(Error::new(String::from_str("The config needs a 'version' string")));
        },
    };
    let template = match m_template {
        Some(t) => match meta_from_value(t) {
            Ok(m) => m,
            Err(e) => {
                return Err(e);
            },
        },
        None => {
            return Err(Error::new(String::from_str("The config needs a 'template' attribute")));
        },
    };
    let data: Vec<TemplateData> = match m_data {
        None => Vec::new(),
        Some(TemplateValue::Arr(items)) => {
            let ghost oi = items@;
            let mut items = items;
            let mut out: Vec<TemplateData> = Vec::new();
            while items.len() > 0
                invariant
                    out@.len() + items@.len() == oi.len(),
                    items@ =~= oi.skip(out@.len() as int),
                    forall|k: int|
                        0 <= k < out@.len() ==> spec_data_matches(oi[k], #[trigger] out@[k]),
                    forall|k: int| 0 <= k < out@.len() ==> spec_data_ok(#[trigger] oi[k]),
                decreases items@.len(),
            {
                let ghost pre = items@;
                let item = items.remove(0);
                proof {
                    assert(pre.drop_first() =~= items@);
                    assert(pre[0] == item);
                }
                match data_from_value(item) {
                    Ok(d) => out.push(d),
                    Err(e) => {
                        return Err(e);
                    },
                }
            }
            out
        },
        Some(_) => {
            return Err(Error::new(String::from_str("The 'data' attribute must be an array")));
        },
    };
    let files = match m_files {
        None => None,
        Some(TemplateValue::Null) => None,
        Some(TemplateValue::Obj(fm)) => Some(fm),
        Some(_) => {
            return Err(Error::new(String::from_str("The 'files' attribute must be an object")));
        },
    };
    let post_generate = match m_post {
        None => None,
        Some(TemplateValue::Null) => None,
        Some(other) => Some(other),
    };
    let help_text = match m_help {
        None => None,
        Some(TemplateValue::Null) => None,
        Some(other) => Some(other),
    };
    Ok(
        TemplateConfig {
            version,
            template,
            data,
            files,
            files_map: None,
            post_generate,
            help_text,
        },
    )
}

/// How the result of parsing a config text of the given spelling must relate
/// to the text.
pub open spec fn spec_parse_outcome(
    ft: ConfigFileType,
    text: Seq<char>,
    r: Result<TemplateConfig, Error>,
) -> bool {
    let p = match ft {
        ConfigFileType::JSON => crate::codec::json_of(text),
        ConfigFileType::YAML => crate::codec::yaml_of(text),
    };
    match p {
        None => r is Err,
        Some(v) => {
            &&& r matches Ok(c) ==> spec_config_matches(v, c)
            &&& r is Ok <==> spec_config_ok(v)
        },
    }
}

impl TemplateConfig {
    /// Parses a config text in the given spelling into the config model.
    pub fn parse(config_text: &str, config_file_type: ConfigFileType) -> (r: Result<
        TemplateConfig,
        Error,
    >)
        ensures
            spec_parse_outcome(config_file_type, config_text@, r),
    {
        let parsed = match config_file_type {
            ConfigFileType::JSON => crate::codec::parse_json_text(config_text),
            ConfigFileType::YAML => crate::codec::parse_yaml_text(config_text),
        };
        match parsed {
            Some(v) => config_from_value(v),
            None => Err(ErrorExt::wrap(String::from_str("The config text could not be parsed"))),
        }
    }
}

} // verus!
