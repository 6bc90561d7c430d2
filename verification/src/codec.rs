use vstd::prelude::*;
use crate::value::TemplateValue;

verus! {

#[verifier::external_type_specification]
#[verifier::external_body]
pub struct ExJsonValue(serde_json::Value);

/// What JSON text parses to, carried into the library's own value union:
/// `None` where the text is not valid JSON. Numbers keep the literal spelling
/// serde_json gives them, and object members come in serde_json's map order.
/// A function of the text alone.
pub uninterp spec fn json_of(s: Seq<char>) -> Option<TemplateValue>;

/// What YAML text parses to, carried into the library's own value union the
/// same way; `None` where the text is not valid YAML for that shape.
/// A function of the text alone.
pub uninterp spec fn yaml_of(s: Seq<char>) -> Option<TemplateValue>;

/// The conversion shared by the two parse wrappers and the render engine:
/// relies on serde_json::Value's variants, one arm each, moving contents over.
#[verifier::external_body]
pub(crate) fn json_to_value(v: &serde_json::Value) -> TemplateValue {
    match v {
        serde_json::Value::Null => TemplateValue::Null,
        serde_json::Value::Bool(b) => TemplateValue::Bool(*b),
        serde_json::Value::Number(n) => TemplateValue::Num(n.to_string()),
        serde_json::Value::String(s) => TemplateValue::Str(s.clone()),
        serde_json::Value::Array(a) => TemplateValue::Arr(a.iter().map(json_to_value).collect()),
        serde_json::Value::Object(m) => TemplateValue::Obj(
            m.iter().map(|(k, x)| (k.clone(), json_to_value(x))).collect(),
        ),
    }
}

/// The conversion back, used where an outside call wants its data as JSON:
/// one arm per variant of the library's value union. A `Num` literal that is
/// no JSON number becomes its text.
#[verifier::external_body]
pub(crate) fn value_to_json(v: &TemplateValue) -> serde_json::Value {
    match v {
        TemplateValue::Null => serde_json::Value::Null,
        TemplateValue::Bool(b) => serde_json::Value::Bool(*b),
        TemplateValue::Num(n) => match n.parse::<serde_json::Number>() {
            Ok(num) => serde_json::Value::Number(num),
            Err(_) => serde_json::Value::String(n.clone()),
        },
        TemplateValue::Str(s) => serde_json::Value::String(s.clone()),
        TemplateValue::Arr(a) => serde_json::Value::Array(a.iter().map(value_to_json).collect()),
        TemplateValue::Obj(m) => serde_json::Value::Object(
            m.iter().map(|(k, x)| (k.clone(), value_to_json(x))).collect(),
        ),
    }
}

/// Relies on serde_json::from_str into serde_json::Value: parsing JSON is a
/// function of the text alone.
#[verifier::external_body]
pub fn parse_json_text(text: &str) -> (r: Option<TemplateValue>)
    ensures
        r == json_of(text@),
{
    match serde_json::from_str::<serde_json::Value>(text) {
        Ok(v) => Some(json_to_value(&v)),
        Err(_) => None,
    }
}

/// Relies on serde_yaml::from_str into serde_json::Value: parsing YAML is a
/// function of the text alone.
#[verifier::external_body]
pub fn parse_yaml_text(text: &str) -> (r: Option<TemplateValue>)
    ensures
        r == yaml_of(text@),
{
    match serde_yaml::from_str::<serde_json::Value>(text) {
        Ok(v) => Some(json_to_value(&v)),
        Err(_) => None,
    }
}

} // verus!
