use vstd::prelude::*;

verus! {

broadcast use vstd::std_specs::vec::group_vec_axioms;

/// The closed union of values a template config or a collected answer can
/// hold: text, a number (kept as the literal the source text spelled),
/// a boolean, an array, an object of named members, or nothing.
#[derive(Debug)]
pub enum TemplateValue {
    Null,
    Bool(bool),
    Num(String),
    Str(String),
    Arr(Vec<TemplateValue>),
    Obj(Vec<(String, TemplateValue)>),
}

/// The member of an object value under `key`, when the value is an object
/// that has the member; `None` otherwise.
pub open spec fn spec_get(v: TemplateValue, key: Seq<char>) -> Option<TemplateValue> {
    match v {
        TemplateValue::Obj(fields) => spec_assoc_value(fields@, key),
        _ => None,
    }
}

/// First member of an association list under `key`.
pub open spec fn spec_assoc_value(fields: Seq<(String, TemplateValue)>, key: Seq<char>) -> Option<TemplateValue>
    decreases fields.len(),
{
    if fields.len() == 0 {
        None
    } else if fields[0].0@ == key {
        Some(fields[0].1)
    } else {
        spec_assoc_value(fields.drop_first(), key)
    }
}

/// Looks a member up in an object value.
#[verifier::loop_isolation(false)]
pub fn get_member<'a>(v: &'a TemplateValue, key: &str) -> (r: Option<&'a TemplateValue>)
    ensures
        match r {
            Some(m) => spec_get(*v, key@) == Some(*m),
            None => spec_get(*v, key@) is None,
        },
{
    match v {
        TemplateValue::Obj(fields) => {
            let mut i: usize = 0;
            proof {
                assert(fields@.skip(0) =~= fields@);
            }
            while i < fields.len()
                invariant
                    0 <= i <= fields@.len(),
                    spec_assoc_value(fields@, key@) == spec_assoc_value(
                        fields@.skip(i as int),
                        key@,
                    ),
                decreases fields@.len() - i,
            {
                if crate::strutil::str_eq(fields[i].0.as_str(), key) {
                    proof {
                        assert(fields@.skip(i as int)[0] == fields@[i as int]);
                        assert(fields@.skip(i as int).len() > 0);
                        assert(spec_assoc_value(fields@.skip(i as int), key@) == Some(
                            fields@[i as int].1,
                        ));
                    }
                    return Some(&fields[i].1);
                }
                proof {
                    assert(fields@.skip(i as int)[0] == fields@[i as int]);
                    assert(fields@.skip(i as int).drop_first() =~= fields@.skip(i as int + 1));
                }
                i = i + 1;
            }
            proof {
                assert(fields@.skip(fields@.len() as int).len() == 0);
            }
            None
        },
        _ => None,
    }
}

/// The canonical text of a value: strings verbatim, numbers and booleans as
/// their literals, `Null` as nothing, arrays as a bracketed comma-joined
/// list, objects as a fixed placeholder.
pub open spec fn spec_val_str(v: TemplateValue) -> Seq<char>
    decreases v, 0nat,
{
    match v {
        TemplateValue::Null => Seq::empty(),
        TemplateValue::Bool(b) => if b {
            "true"@
        } else {
            "false"@
        },
        TemplateValue::Num(n) => n@,
        TemplateValue::Str(s) => s@,
        TemplateValue::Arr(items) => seq!['['] + spec_vals_str(items@) + seq![']'],
        TemplateValue::Obj(_) => "[object]"@,
    }
}

pub open spec fn spec_vals_str(items: Seq<TemplateValue>) -> Seq<char>
    decreases items, items.len() + 1nat,
{
    if items.len() == 0 {
        Seq::empty()
    } else if items.len() == 1 {
        spec_val_str(items[0])
    } else {
        spec_val_str(items[0]) + ", "@ + spec_vals_str(items.drop_first())
    }
}

proof fn lemma_vals_str_push(items: Seq<TemplateValue>, x: TemplateValue)
    ensures
        spec_vals_str(items.push(x)) == if items.len() == 0 {
            spec_val_str(x)
        } else {
            spec_vals_str(items) + ", "@ + spec_val_str(x)
        },
    decreases items.len(),
{
    if items.len() == 0 {
        assert(items.push(x)[0] == x);
        assert(items.push(x).len() == 1);
    } else if items.len() == 1 {
        assert(items.push(x)[0] == items[0]);
        assert(items.push(x).drop_first() =~= seq![x]);
        assert(spec_vals_str(seq![x]) == spec_val_str(x));
    } else {
        lemma_vals_str_push(items.drop_first(), x);
        assert(items.push(x).drop_first() =~= items.drop_first().push(x));
        assert(items.push(x)[0] == items[0]);
        assert(spec_vals_str(items.push(x)) =~= spec_vals_str(items) + ", "@ + spec_val_str(x));
    }
}

/// Renders a value as the text substituted for it, per [`spec_val_str`].
#[verifier::loop_isolation(false)]
pub fn json_val_to_actual_str(val: &TemplateValue) -> (r: String)
    ensures
        r@ == spec_val_str(*val),
    decreases *val,
{
    match val {
        TemplateValue::Null => String::new(),
        TemplateValue::Bool(b) => {
            if *b {
                String::from_str("true")
            } else {
                String::from_str("false")
            }
        },
        TemplateValue::Num(n) => n.clone(),
        TemplateValue::Str(s) => s.clone(),
        TemplateValue::Obj(_) => String::from_str("[object]"),
        TemplateValue::Arr(items) => {
            let mut buf = String::from_str("[");
            let mut i: usize = 0;
            proof {
                reveal_strlit("[");
                assert("["@ =~= seq!['[']);
                assert(items@.subrange(0, 0) =~= Seq::<TemplateValue>::empty());
                assert(buf@ =~= seq!['['] + spec_vals_str(items@.subrange(0, 0)));
            }
            while i < items.len()
                invariant
                    0 <= i <= items@.len(),
                    buf@ == seq!['['] + spec_vals_str(items@.subrange(0, i as int)),
                decreases items@.len() - i,
            {
                proof {
                    assert(decreases_to!(*val => *items));
                    assert(decreases_to!(*items => items@));
                    assert(decreases_to!(items@ => items@[i as int]));
                    assert(decreases_to!(*val => items@[i as int]));
                }
                if i > 0 {
                    buf.append(", ");
                }
                let piece = json_val_to_actual_str(&items[i]);
                buf.append(piece.as_str());
                proof {
                    lemma_vals_str_push(items@.subrange(0, i as int), items@[i as int]);
                    assert(items@.subrange(0, i as int).push(items@[i as int]) =~= items@.subrange(
                        0,
                        i as int + 1,
                    ));
                    assert(buf@ =~= seq!['['] + spec_vals_str(items@.subrange(0, i as int + 1)));
                }
                i = i + 1;
            }
            buf.append("]");
            proof {
                assert(items@.subrange(0, items@.len() as int) =~= items@);
                reveal_strlit("]");
                assert("]"@ =~= seq![']']);
                assert(buf@ =~= spec_val_str(*val));
            }
            buf
        },
    }
}

} // verus!
