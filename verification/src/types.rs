use vstd::prelude::*;
use crate::value::{spec_assoc_value, TemplateValue};

verus! {

/// The template's own metadata: which render engine it wants, where under
/// the template root its source tree lives, and which file extension marks a
/// file as templated.
#[derive(Debug)]
pub struct TemplateMeta {
    pub engine: String,
    pub path: String,
    pub extension: String,
}

/// One declared user-input field: its unique name, its type, an optional
/// closed set of allowed values, the prompt message, whether an answer is
/// required, and an optional default.
#[derive(Debug)]
pub struct TemplateData {
    pub name: String,
    pub data_type: TemplateDataType,
    pub values: Option<Vec<TemplateValue>>,
    pub message: String,
    pub required: bool,
    pub default_value: Option<TemplateValue>,
}

/// The declared type of one user-input field.
#[derive(Clone, Copy, Debug, PartialEq, Eq, Structural)]
pub enum TemplateDataType {
    String,
    Number,
    Bool,
    ArrayString,
    ArrayNumber,
    Semver,
}

/// One file override: a render-capable inclusion check, and optionally a
/// render-capable new name.
#[derive(Debug)]
pub struct CondFileMap {
    pub check: String,
    pub new_name: Option<String>,
}

/// Which of the accepted config spellings a config text is written in.
#[derive(Clone, Copy, Debug, PartialEq, Eq, Structural)]
pub enum ConfigFileType {
    JSON,
    YAML,
}

/// A template's declarative config: version, metadata, the ordered
/// user-input fields, the raw file overrides as declared, the same overrides
/// resolved and re-keyed (filled in during resolution, `None` before), and
/// the optional post-generation commands and help text.
#[derive(Debug)]
pub struct TemplateConfig {
    pub version: String,
    pub template: TemplateMeta,
    pub data: Vec<TemplateData>,
    pub files: Option<Vec<(String, TemplateValue)>>,
    pub files_map: Option<Vec<(String, CondFileMap)>>,
    pub post_generate: Option<TemplateValue>,
    pub help_text: Option<TemplateValue>,
}

impl TemplateDataType {
    /// The canonical zero value of the type: empty text, the zero number
    /// literal, `false`, the empty array, or the base semver.
    pub fn default_value(&self) -> (r: TemplateValue)
        ensures
            match self {
                TemplateDataType::String => r matches TemplateValue::Str(s) && s@ == Seq::<
                    char,
                >::empty(),
                TemplateDataType::Number => r matches TemplateValue::Num(n) && n@ == "0.0"@,
                TemplateDataType::Bool => r == TemplateValue::Bool(false),
                TemplateDataType::ArrayString => r matches TemplateValue::Arr(a) && a@ == Seq::<
                    TemplateValue,
                >::empty(),
                TemplateDataType::ArrayNumber => r matches TemplateValue::Arr(a) && a@ == Seq::<
                    TemplateValue,
                >::empty(),
                TemplateDataType::Semver => r matches TemplateValue::Str(s) && s@ == "1.0.0"@,
            },
    {
        match self {
            TemplateDataType::String => TemplateValue::Str(String::new()),
            TemplateDataType::Number => TemplateValue::Num(String::from_str("0.0")),
            TemplateDataType::Bool => TemplateValue::Bool(false),
            TemplateDataType::ArrayString => TemplateValue::Arr(Vec::new()),
            TemplateDataType::ArrayNumber => TemplateValue::Arr(Vec::new()),
            TemplateDataType::Semver => TemplateValue::Str(String::from_str("1.0.0")),
        }
    }
}

/// The type a declared type name stands for, or `None` for an unknown name.
pub open spec fn spec_data_type_of(t: Seq<char>) -> Option<TemplateDataType> {
    if t == "string"@ {
        Some(TemplateDataType::String)
    } else if t == "number"@ {
        Some(TemplateDataType::Number)
    } else if t == "bool"@ {
        Some(TemplateDataType::Bool)
    } else if t == "array[string]"@ {
        Some(TemplateDataType::ArrayString)
    } else if t == "array[number]"@ {
        Some(TemplateDataType::ArrayNumber)
    } else if t == "semver"@ {
        Some(TemplateDataType::Semver)
    } else {
        None
    }
}

/// A required text member: present and a string.
pub open spec fn spec_req_string(
    f: Seq<(String, TemplateValue)>,
    key: Seq<char>,
    out: String,
) -> bool {
    match spec_assoc_value(f, key) {
        Some(TemplateValue::Str(s)) => out == s,
        _ => false,
    }
}

/// An optional text member: a string when present, the empty text when
/// absent.
pub open spec fn spec_opt_string(
    f: Seq<(String, TemplateValue)>,
    key: Seq<char>,
    out: String,
) -> bool {
    match spec_assoc_value(f, key) {
        Some(TemplateValue::Str(s)) => out == s,
        None => out@ == Seq::<char>::empty(),
        _ => false,
    }
}

/// An optional member of any shape: absent and `null` both mean `None`.
pub open spec fn spec_opt_value(
    f: Seq<(String, TemplateValue)>,
    key: Seq<char>,
    out: Option<TemplateValue>,
) -> bool {
    match spec_assoc_value(f, key) {
        None => out is None,
        Some(TemplateValue::Null) => out is None,
        Some(v) => out == Some(v),
    }
}

/// An optional array member: absent and `null` mean `None`, an array is
/// taken as it stands.
pub open spec fn spec_opt_values_arr(
    f: Seq<(String, TemplateValue)>,
    key: Seq<char>,
    out: Option<Vec<TemplateValue>>,
) -> bool {
    match spec_assoc_value(f, key) {
        None => out is None,
        Some(TemplateValue::Null) => out is None,
        Some(TemplateValue::Arr(a)) => out == Some(a),
        _ => false,
    }
}

/// How one declared user-input field relates to the object it was read from.
pub open spec fn spec_data_matches(item: TemplateValue, d: TemplateData) -> bool {
    item matches TemplateValue::Obj(f) && {
        &&& spec_req_string(f@, "name"@, d.name)
        &&& match spec_assoc_value(f@, "type"@) {
            Some(TemplateValue::Str(t)) => spec_data_type_of(t@) == Some(d.data_type),
            _ => false,
        }
        &&& spec_opt_values_arr(f@, "values"@, d.values)
        &&& spec_opt_string(f@, "message"@, d.message)
        &&& match spec_assoc_value(f@, "required"@) {
            Some(TemplateValue::Bool(b)) => d.required == b,
            _ => false,
        }
        &&& spec_opt_value(f@, "defaultValue"@, d.default_value)
    }
}

/// How the metadata relates to the object it was read from.
pub open spec fn spec_meta_matches(v: TemplateValue, m: TemplateMeta) -> bool {
    v matches TemplateValue::Obj(f) && {
        &&& spec_req_string(f@, "engine"@, m.engine)
        &&& spec_opt_string(f@, "path"@, m.path)
        &&& spec_opt_string(f@, "extension"@, m.extension)
    }
}

/// How a whole parsed config relates to the value it was read from: the
/// schema of the manifest, with unknown members ignored.
pub open spec fn spec_config_matches(v: TemplateValue, c: TemplateConfig) -> bool {
    v matches TemplateValue::Obj(f) && {
        &&& spec_req_string(f@, "version"@, c.version)
        &&& match spec_assoc_value(f@, "template"@) {
            Some(t) => spec_meta_matches(t, c.template),
            None => false,
        }
        &&& match spec_assoc_value(f@, "data"@) {
            None => c.data@.len() == 0,
            Some(TemplateValue::Arr(items)) => c.data@.len() == items@.len() && forall|i: int|
                0 <= i < items@.len() ==> spec_data_matches(items@[i], #[trigger] c.data@[i]),
            _ => false,
        }
        &&& match spec_assoc_value(f@, "files"@) {
            None => c.files is None,
            Some(TemplateValue::Null) => c.files is None,
            Some(TemplateValue::Obj(fm)) => c.files == Some(fm),
            _ => false,
        }
        &&& c.files_map is None
        &&& spec_opt_value(f@, "postGenerate"@, c.post_generate)
        &&& spec_opt_value(f@, "helpText"@, c.help_text)
    }
}

/// Whether one declared user-input object has a valid shape.
pub open spec fn spec_data_ok(item: TemplateValue) -> bool {
    item matches TemplateValue::Obj(f) && {
        &&& spec_assoc_value(f@, "name"@) matches Some(TemplateValue::Str(_))
        &&& match spec_assoc_value(f@, "type"@) {
            Some(TemplateValue::Str(t)) => spec_data_type_of(t@) is Some,
            _ => false,
        }
        &&& match spec_assoc_value(f@, "values"@) {
            None => true,
            Some(TemplateValue::Null) => true,
            Some(TemplateValue::Arr(_)) => true,
            _ => false,
        }
        &&& match spec_assoc_value(f@, "message"@) {
            None => true,
            Some(TemplateValue::Str(_)) => true,
            _ => false,
        }
        &&& spec_assoc_value(f@, "required"@) matches Some(TemplateValue::Bool(_))
    }
}

/// Whether the metadata object has a valid shape.
pub open spec fn spec_meta_ok(v: TemplateValue) -> bool {
    v matches TemplateValue::Obj(f) && {
        &&& spec_assoc_value(f@, "engine"@) matches Some(TemplateValue::Str(_))
        &&& match spec_assoc_value(f@, "path"@) {
            None => true,
            Some(TemplateValue::Str(_)) => true,
            _ => false,
        }
        &&& match spec_assoc_value(f@, "extension"@) {
            None => true,
            Some(TemplateValue::Str(_)) => true,
            _ => false,
        }
    }
}

/// Whether a parsed value is a valid manifest: exactly then does reading the
/// config out of it succeed.
pub open spec fn spec_config_ok(v: TemplateValue) -> bool {
    v matches TemplateValue::Obj(f) && {
        &&& spec_assoc_value(f@, "version"@) matches Some(TemplateValue::Str(_))
        &&& match spec_assoc_value(f@, "template"@) {
            Some(t) => spec_meta_ok(t),
            None => false,
        }
        &&& match spec_assoc_value(f@, "data"@) {
            None => true,
            Some(TemplateValue::Arr(items)) => forall|i: int|
                0 <= i < items@.len() ==> spec_data_ok(#[trigger] items@[i]),
            _ => false,
        }
        &&& match spec_assoc_value(f@, "files"@) {
            None => true,
            Some(TemplateValue::Null) => true,
            Some(TemplateValue::Obj(_)) => true,
            _ => false,
        }
    }
}

} // verus!
