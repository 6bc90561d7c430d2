use vstd::prelude::*;
use crate::value::{spec_get, TemplateValue};

verus! {

broadcast use vstd::string::group_string_axioms;

/// The template listings a registry answer holds: for every item of its
/// `items` array that carries a `name` string and a `description` string,
/// that pair, in answer order; items missing either are dropped.
pub open spec fn spec_search_results(v: TemplateValue) -> Seq<(String, String)> {
    match spec_get(v, "items"@) {
        Some(TemplateValue::Arr(items)) => spec_result_items(items@),
        _ => Seq::empty(),
    }
}

pub open spec fn spec_result_items(items: Seq<TemplateValue>) -> Seq<(String, String)>
    decreases items.len(),
{
    if items.len() == 0 {
        Seq::empty()
    } else {
        (match (spec_get(items[0], "name"@), spec_get(items[0], "description"@)) {
            (Some(TemplateValue::Str(n)), Some(TemplateValue::Str(d))) => seq![(n, d)],
            _ => Seq::<(String, String)>::empty(),
        }) + spec_result_items(items.drop_first())
    }
}

proof fn lemma_result_items_push(items: Seq<TemplateValue>, x: TemplateValue)
    ensures
        spec_result_items(items.push(x)) == spec_result_items(items) + (match (
            spec_get(x, "name"@),
            spec_get(x, "description"@),
        ) {
            (Some(TemplateValue::Str(n)), Some(TemplateValue::Str(d))) => seq![(n, d)],
            _ => Seq::<(String, String)>::empty(),
        }),
    decreases items.len(),
{
    if items.len() == 0 {
        assert(items.push(x)[0] == x);
        assert(items.push(x).drop_first() =~= Seq::<TemplateValue>::empty());
        assert(spec_result_items(Seq::<TemplateValue>::empty()) == Seq::<(String, String)>::empty());
        assert(spec_result_items(items.push(x)) =~= spec_result_items(items) + (match (
            spec_get(x, "name"@),
            spec_get(x, "description"@),
        ) {
            (Some(TemplateValue::Str(n)), Some(TemplateValue::Str(d))) => seq![(n, d)],
            _ => Seq::<(String, String)>::empty(),
        }));
    } else {
        lemma_result_items_push(items.drop_first(), x);
        assert(items.push(x).drop_first() =~= items.drop_first().push(x));
        assert(items.push(x)[0] == items[0]);
        assert(spec_result_items(items.push(x)) =~= spec_result_items(items) + (match (
            spec_get(x, "name"@),
            spec_get(x, "description"@),
        ) {
            (Some(TemplateValue::Str(n)), Some(TemplateValue::Str(d))) => seq![(n, d)],
            _ => Seq::<(String, String)>::empty(),
        }));
    }
}

/// Reads the template listings out of a parsed registry answer.
#[verifier::loop_isolation(false)]
pub fn extract_search_results(v: &TemplateValue) -> (r: Vec<(String, String)>)
    ensures
        r@ == spec_search_results(*v),
{
    let mut out: Vec<(String, String)> = Vec::new();
    let items = match crate::value::get_member(v, "items") {
        Some(TemplateValue::Arr(items)) => items,
        _ => {
            return out;
        },
    };
    let mut i: usize = 0;
    proof {
        assert(items@.subrange(0, 0) =~= Seq::<TemplateValue>::empty());
        assert(out@ =~= spec_result_items(items@.subrange(0, 0)));
    }
    while i < items.len()
        invariant
            0 <= i <= items@.len(),
            out@ == spec_result_items(items@.subrange(0, i as int)),
        decreases items@.len() - i,
    {
        let item = &items[i];
        match (crate::value::get_member(item, "name"), crate::value::get_member(
            item,
            "description",
        )) {
            (Some(TemplateValue::Str(n)), Some(TemplateValue::Str(d))) => {
                out.push((n.clone(), d.clone()));
            },
            _ => (),
        }
        proof {
            lemma_result_items_push(items@.subrange(0, i as int), items@[i as int]);
            assert(items@.subrange(0, i as int).push(items@[i as int]) =~= items@.subrange(
                0,
                i as int + 1,
            ));
            assert(out@ =~= spec_result_items(items@.subrange(0, i as int + 1)));
        }
        i = i + 1;
    }
    proof {
        assert(items@.subrange(0, items@.len() as int) =~= items@);
    }
    out
}

} // verus!
