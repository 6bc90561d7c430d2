use vstd::prelude::*;
use crate::strutil::{
    spec_eq_ignore_ascii_case, spec_is_space, spec_trimmed, str_eq_ignore_ascii_case, trim,
};
use crate::types::{TemplateData, TemplateDataType};
use crate::value::TemplateValue;

verus! {

broadcast use vstd::string::group_string_axioms;

/// The text of a string value; anything else reads as empty.
pub open spec fn spec_str_of(v: TemplateValue) -> Seq<char> {
    match v {
        TemplateValue::Str(s) => s@,
        _ => Seq::empty(),
    }
}

/// The truth of a boolean value; anything else reads as `false`.
pub open spec fn spec_bool_of(v: TemplateValue) -> bool {
    match v {
        TemplateValue::Bool(b) => b,
        _ => false,
    }
}

/// The literal of a number value; anything else reads as the zero literal.
pub open spec fn spec_num_of(v: TemplateValue) -> Seq<char> {
    match v {
        TemplateValue::Num(n) => n@,
        _ => "0"@,
    }
}

/// The items of an array value; anything else reads as no items.
pub open spec fn spec_arr_items(v: TemplateValue) -> Seq<TemplateValue> {
    match v {
        TemplateValue::Arr(a) => a@,
        _ => Seq::empty(),
    }
}

/// Texts joined with a comma separator.
pub open spec fn spec_joined(list: Seq<Seq<char>>) -> Seq<char>
    decreases list.len(),
{
    if list.len() == 0 {
        Seq::empty()
    } else if list.len() == 1 {
        list[0]
    } else {
        list[0] + ", "@ + spec_joined(list.drop_first())
    }
}

proof fn lemma_joined_push(list: Seq<Seq<char>>, x: Seq<char>)
    ensures
        spec_joined(list.push(x)) == if list.len() == 0 {
            x
        } else {
            spec_joined(list) + ", "@ + x
        },
    decreases list.len(),
{
    if list.len() == 0 {
        assert(list.push(x)[0] == x);
        assert(list.push(x).len() == 1);
    } else if list.len() == 1 {
        assert(list.push(x)[0] == list[0]);
        assert(list.push(x).drop_first() =~= seq![x]);
        assert(spec_joined(seq![x]) == x);
    } else {
        lemma_joined_push(list.drop_first(), x);
        assert(list.push(x).drop_first() =~= list.drop_first().push(x));
        assert(list.push(x)[0] == list[0]);
        assert(spec_joined(list.push(x)) =~= spec_joined(list) + ", "@ + x);
    }
}

/// Joins the texts of an array's items with commas, strings verbatim and
/// anything else empty.
#[verifier::loop_isolation(false)]
fn join_str_items(items: &Vec<TemplateValue>) -> (r: String)
    ensures
        r@ == spec_joined(items@.map_values(|x: TemplateValue| spec_str_of(x))),
{
    let mut out = String::new();
    let mut i: usize = 0;
    proof {
        assert(items@.subrange(0, 0).map_values(|x: TemplateValue| spec_str_of(x)) =~= Seq::<
            Seq<char>,
        >::empty());
    }
    while i < items.len()
        invariant
            0 <= i <= items@.len(),
            out@ == spec_joined(
                items@.subrange(0, i as int).map_values(|x: TemplateValue| spec_str_of(x)),
            ),
        decreases items@.len() - i,
    {
        if i > 0 {
            out.append(", ");
        }
        match &items[i] {
            TemplateValue::Str(s) => out.append(s.as_str()),
            _ => (),
        }
        proof {
            let pre = items@.subrange(0, i as int).map_values(|x: TemplateValue| spec_str_of(x));
            lemma_joined_push(pre, spec_str_of(items@[i as int]));
            assert(pre.push(spec_str_of(items@[i as int])) =~= items@.subrange(
                0,
                i as int + 1,
            ).map_values(|x: TemplateValue| spec_str_of(x)));
            assert(out@ =~= spec_joined(
                items@.subrange(0, i as int + 1).map_values(|x: TemplateValue| spec_str_of(x)),
            ));
        }
        i = i + 1;
    }
    proof {
        assert(items@.subrange(0, items@.len() as int) =~= items@);
    }
    out
}

/// Joins the literals of an array's items with commas, numbers verbatim and
/// anything else as the zero literal.
#[verifier::loop_isolation(false)]
fn join_num_items(items: &Vec<TemplateValue>) -> (r: String)
    ensures
        r@ == spec_joined(items@.map_values(|x: TemplateValue| spec_num_of(x))),
{
    let mut out = String::new();
    let mut i: usize = 0;
    proof {
        assert(items@.subrange(0, 0).map_values(|x: TemplateValue| spec_num_of(x)) =~= Seq::<
            Seq<char>,
        >::empty());
    }
    while i < items.len()
        invariant
            0 <= i <= items@.len(),
            out@ == spec_joined(
                items@.subrange(0, i as int).map_values(|x: TemplateValue| spec_num_of(x)),
            ),
        decreases items@.len() - i,
    {
        if i > 0 {
            out.append(", ");
        }
        match &items[i] {
            TemplateValue::Num(n) => out.append(n.as_str()),
            _ => out.append("0"),
        }
        proof {
            let pre = items@.subrange(0, i as int).map_values(|x: TemplateValue| spec_num_of(x));
            lemma_joined_push(pre, spec_num_of(items@[i as int]));
            assert(pre.push(spec_num_of(items@[i as int])) =~= items@.subrange(
                0,
                i as int + 1,
            ).map_values(|x: TemplateValue| spec_num_of(x)));
            assert(out@ =~= spec_joined(
                items@.subrange(0, i as int + 1).map_values(|x: TemplateValue| spec_num_of(x)),
            ));
        }
        i = i + 1;
    }
    proof {
        assert(items@.subrange(0, items@.len() as int) =~= items@);
    }
    out
}

/// The prompt text one data spec shows: its trimmed message (or a default
/// naming the field), and, for an optional spec with a default value, that
/// default in parentheses rendered per type — with two quirks kept: an
/// optional string whose default trims to empty shows no default, and an
/// optional semver whose default trims to empty shows nothing at all.
pub open spec fn spec_data_message(d: TemplateData) -> Seq<char> {
    let m0 = spec_trimmed(d.message@);
    let m = if m0.len() == 0 {
        "Enter "@ + d.name@ + ": "@
    } else {
        m0
    };
    if d.required {
        m
    } else {
        match d.default_value {
            None => m,
            Some(v) => match d.data_type {
                TemplateDataType::String => {
                    let t = spec_trimmed(spec_str_of(v));
                    if t.len() == 0 {
                        m
                    } else {
                        m + " ("@ + t + ")"@
                    }
                },
                TemplateDataType::Number => m + " ("@ + spec_num_of(v) + ")"@,
                TemplateDataType::Bool => m + " ("@ + (if spec_bool_of(v) {
                    "yes"@
                } else {
                    "no"@
                }) + ")"@,
                TemplateDataType::ArrayString => {
                    let j = spec_joined(
                        spec_arr_items(v).map_values(|x: TemplateValue| spec_str_of(x)),
                    );
                    if j.len() == 0 {
                        m
                    } else {
                        m + " (["@ + j + "])"@
                    }
                },
                TemplateDataType::ArrayNumber => {
                    let j = spec_joined(
                        spec_arr_items(v).map_values(|x: TemplateValue| spec_num_of(x)),
                    );
                    if j.len() == 0 {
                        m
                    } else {
                        m + " (["@ + j + "])"@
                    }
                },
                TemplateDataType::Semver => {
                    let t = spec_trimmed(spec_str_of(v));
                    if t.len() == 0 {
                        Seq::empty()
                    } else {
                        m + " ("@ + t + ")"@
                    }
                },
            },
        }
    }
}

/// Builds the prompt text for one data spec, per [`spec_data_message`].
pub fn get_data_massage(data_config: &TemplateData) -> (r: String)
    ensures
        r@ == spec_data_message(*data_config),
{
    let trimmed_msg = trim(data_config.message.as_str());
    let m: String = if trimmed_msg.unicode_len() == 0 {
        let mut d = String::from_str("Enter ");
        d.append(data_config.name.as_str());
        d.append(": ");
        d
    } else {
        String::from_str(trimmed_msg)
    };
    if data_config.required {
        return m;
    }
    let v = match &data_config.default_value {
        None => {
            return m;
        },
        Some(v) => v,
    };
    match data_config.data_type {
        TemplateDataType::String => {
            let raw = match v {
                TemplateValue::Str(s) => s.as_str(),
                _ => "",
            };
            let t = trim(raw);
            proof {
                if !(v matches TemplateValue::Str(_)) {
                    reveal_strlit("");
                    assert(spec_trimmed(Seq::<char>::empty()) =~= Seq::<char>::empty());
                    assert(""@ =~= Seq::<char>::empty());
                }
            }
            if t.unicode_len() == 0 {
                m
            } else {
                let mut out = m;
                out.append(" (");
                out.append(t);
                out.append(")");
                out
            }
        },
        TemplateDataType::Number => {
            let mut out = m;
            out.append(" (");
            match v {
                TemplateValue::Num(n) => out.append(n.as_str()),
                _ => out.append("0"),
            }
            out.append(")");
            out
        },
        TemplateDataType::Bool => {
            let truthy = match v {
                TemplateValue::Bool(b) => *b,
                _ => false,
            };
            let mut out = m;
            out.append(" (");
            if truthy {
                out.append("yes");
            } else {
                out.append("no");
            }
            out.append(")");
            out
        },
        TemplateDataType::ArrayString => {
            let empty_items: Vec<TemplateValue> = Vec::new();
            let items = match v {
                TemplateValue::Arr(a) => a,
                _ => &empty_items,
            };
            proof {
                if !(v matches TemplateValue::Arr(_)) {
                    assert(items@.map_values(|x: TemplateValue| spec_str_of(x)) =~= spec_arr_items(
                        *v,
                    ).map_values(|x: TemplateValue| spec_str_of(x)));
                }
            }
            let j = join_str_items(items);
            if j.unicode_len() == 0 {
                m
            } else {
                let mut out = m;
                out.append(" ([");
                out.append(j.as_str());
                out.append("])");
                out
            }
        },
        TemplateDataType::ArrayNumber => {
            let empty_items: Vec<TemplateValue> = Vec::new();
            let items = match v {
                TemplateValue::Arr(a) => a,
                _ => &empty_items,
            };
            proof {
                if !(v matches TemplateValue::Arr(_)) {
                    assert(items@.map_values(|x: TemplateValue| spec_num_of(x)) =~= spec_arr_items(
                        *v,
                    ).map_values(|x: TemplateValue| spec_num_of(x)));
                }
            }
            let j = join_num_items(items);
            if j.unicode_len() == 0 {
                m
            } else {
                let mut out = m;
                out.append(" ([");
                out.append(j.as_str());
                out.append("])");
                out
            }
        },
        TemplateDataType::Semver => {
            let raw = match v {
                TemplateValue::Str(s) => s.as_str(),
                _ => "",
            };
            let t = trim(raw);
            proof {
                if !(v matches TemplateValue::Str(_)) {
                    reveal_strlit("");
                    assert(spec_trimmed(Seq::<char>::empty()) =~= Seq::<char>::empty());
                    assert(""@ =~= Seq::<char>::empty());
                }
            }
            if t.unicode_len() == 0 {
                String::new()
            } else {
                let mut out = m;
                out.append(" (");
                out.append(t);
                out.append(")");
                out
            }
        },
    }
}

/// What a yes/no answer means: `yes`/`y` and `no`/`n`, up to ASCII case;
/// anything else is no answer.
pub open spec fn spec_bool_input(s: Seq<char>) -> Option<bool> {
    if spec_eq_ignore_ascii_case(s, "yes"@) || spec_eq_ignore_ascii_case(s, "y"@) {
        Some(true)
    } else if spec_eq_ignore_ascii_case(s, "no"@) || spec_eq_ignore_ascii_case(s, "n"@) {
        Some(false)
    } else {
        None
    }
}

/// Reads a yes/no answer.
pub fn parse_bool_input(input: &str) -> (r: Option<bool>)
    ensures
        r == spec_bool_input(input@),
{
    if str_eq_ignore_ascii_case(input, "yes") || str_eq_ignore_ascii_case(input, "y") {
        Some(true)
    } else if str_eq_ignore_ascii_case(input, "no") || str_eq_ignore_ascii_case(input, "n") {
        Some(false)
    } else {
        None
    }
}

/// Whether an answer is one of a spec's allowed string values.
pub open spec fn spec_string_allowed(values: Seq<TemplateValue>, input: Seq<char>) -> bool {
    exists|i: int|
        0 <= i < values.len() && ((#[trigger] values[i]) matches TemplateValue::Str(s) && s@
            == input)
}

/// Checks an answer against a spec's allowed string values.
#[verifier::loop_isolation(false)]
pub fn string_allowed(values: &Vec<TemplateValue>, input: &str) -> (r: bool)
    ensures
        r == spec_string_allowed(values@, input@),
{
    let mut i: usize = 0;
    while i < values.len()
        invariant
            0 <= i <= values@.len(),
            forall|k: int|
                0 <= k < i ==> !((#[trigger] values@[k]) matches TemplateValue::Str(s) && s@
                    == input@),
        decreases values@.len() - i,
    {
        match &values[i] {
            TemplateValue::Str(s) => {
                if crate::strutil::str_eq(s.as_str(), input) {
                    return true;
                }
            },
            _ => (),
        }
        i = i + 1;
    }
    false
}

/// A character that separates list items: a comma or white space.
pub open spec fn spec_is_list_sep(c: char) -> bool {
    c == ',' || spec_is_space(c)
}

/// Index of the first separator in `s`, or `s.len()` when there is none.
pub open spec fn spec_sep_idx(s: Seq<char>) -> int
    decreases s.len(),
{
    if s.len() == 0 {
        0
    } else if spec_is_list_sep(s[0]) {
        0
    } else {
        1 + spec_sep_idx(s.drop_first())
    }
}

pub proof fn lemma_sep_idx(s: Seq<char>)
    ensures
        0 <= spec_sep_idx(s) <= s.len(),
        spec_sep_idx(s) < s.len() ==> spec_is_list_sep(s[spec_sep_idx(s)]),
        forall|k: int| 0 <= k < spec_sep_idx(s) ==> !spec_is_list_sep(s[k]),
    decreases s.len(),
{
    if s.len() > 0 && !spec_is_list_sep(s[0]) {
        lemma_sep_idx(s.drop_first());
        assert(forall|k: int| 1 <= k < spec_sep_idx(s) ==> s[k] == s.drop_first()[k - 1]);
    }
}

/// When no separator stands before `m` and `s[m]` is one (or `m` is the
/// end), the first separator is exactly at `m`.
pub proof fn lemma_sep_idx_at(s: Seq<char>, m: int)
    requires
        0 <= m <= s.len(),
        forall|k: int| 0 <= k < m ==> !spec_is_list_sep(s[k]),
        m == s.len() || spec_is_list_sep(s[m]),
    ensures
        spec_sep_idx(s) == m,
{
    lemma_sep_idx(s);
    if spec_sep_idx(s) < m {
        assert(spec_is_list_sep(s[spec_sep_idx(s)]));
    }
    if spec_sep_idx(s) > m {
        assert(!spec_is_list_sep(s[m]));
    }
}

/// Length of the separator run at the front of `s`.
pub open spec fn spec_sep_run(s: Seq<char>) -> nat
    decreases s.len(),
{
    if s.len() > 0 && spec_is_list_sep(s[0]) {
        1 + spec_sep_run(s.drop_first())
    } else {
        0
    }
}

pub proof fn lemma_sep_run(s: Seq<char>)
    ensures
        0 <= spec_sep_run(s) <= s.len(),
        forall|k: int| 0 <= k < spec_sep_run(s) ==> spec_is_list_sep(s[k]),
        spec_sep_run(s) < s.len() ==> !spec_is_list_sep(s[spec_sep_run(s) as int]),
    decreases s.len(),
{
    if s.len() > 0 && spec_is_list_sep(s[0]) {
        lemma_sep_run(s.drop_first());
        assert(forall|k: int| 1 <= k < spec_sep_run(s) ==> s[k] == s.drop_first()[k - 1]);
    }
}

/// When the first `m` characters are separators and the next one (if any)
/// is not, the separator run is exactly `m`.
pub proof fn lemma_sep_run_at(s: Seq<char>, m: int)
    requires
        0 <= m <= s.len(),
        forall|k: int| 0 <= k < m ==> spec_is_list_sep(s[k]),
        m == s.len() || !spec_is_list_sep(s[m]),
    ensures
        spec_sep_run(s) == m,
{
    lemma_sep_run(s);
    if spec_sep_run(s) < m {
        assert(spec_is_list_sep(s[spec_sep_run(s) as int]));
    }
    if spec_sep_run(s) > m {
        assert(spec_is_list_sep(s[m]));
    }
}

/// A list answer split at every run of separators: the pieces between runs,
/// in order. A leading run yields a leading empty piece and a trailing run a
/// trailing empty one.
pub open spec fn spec_split_list(s: Seq<char>) -> Seq<Seq<char>>
    decreases s.len(),
{
    let i = spec_sep_idx(s);
    if i >= s.len() {
        seq![s]
    } else {
        proof {
            lemma_sep_idx(s);
            lemma_sep_run(s.skip(i));
        }
        let run = spec_sep_run(s.skip(i));
        seq![s.subrange(0, i)] + spec_split_list(s.skip(i + run as int))
    }
}

/// Splits a list answer at runs of commas and white space.
#[verifier::loop_isolation(false)]
pub fn split_list_input(s: &str) -> (r: Vec<String>)
    ensures
        r.deep_view() == spec_split_list(s@),
{
    let mut out: Vec<String> = Vec::new();
    let n = s.unicode_len();
    let mut p: usize = 0;
    proof {
        assert(s@.skip(0) =~= s@);
        assert(out.deep_view() + spec_split_list(s@) =~= spec_split_list(s@));
    }
    loop
        invariant
            0 <= p <= n,
            out.deep_view() + spec_split_list(s@.skip(p as int)) =~= spec_split_list(s@),
        decreases n - p + 1,
    {
        let ghost tail = s@.skip(p as int);
        let mut i = p;
        while i < n && !is_list_sep_char(s.get_char(i))
            invariant
                p <= i <= n,
                forall|k: int| p <= k < i ==> !spec_is_list_sep(s@[k]),
            decreases n - i,
        {
            i = i + 1;
        }
        proof {
            assert(forall|k: int| #![trigger tail[k]] 0 <= k < i - p ==> tail[k] == s@[p + k]);
            lemma_sep_idx_at(tail, i - p);
        }
        let piece = s.substring_char(p, i);
        out.push(String::from_str(piece));
        if i >= n {
            proof {
                assert(spec_split_list(tail) =~= seq![tail]);
                assert(piece@ =~= tail);
                assert(out.deep_view() =~= spec_split_list(s@));
            }
            return out;
        }
        let mut j = i;
        while j < n && is_list_sep_char(s.get_char(j))
            invariant
                i <= j <= n,
                forall|k: int| i <= k < j ==> spec_is_list_sep(s@[k]),
            decreases n - j,
        {
            j = j + 1;
        }
        proof {
            let after = tail.skip(i - p);
            assert(after =~= s@.skip(i as int));
            assert(forall|k: int| #![trigger after[k]] 0 <= k < j - i ==> after[k] == s@[i + k]);
            lemma_sep_run_at(after, j - i);
            assert(piece@ =~= tail.subrange(0, i - p));
            assert(tail.skip((i - p) + spec_sep_run(after) as int) =~= s@.skip(j as int));
            assert(spec_split_list(tail) =~= seq![tail.subrange(0, i - p)] + spec_split_list(
                s@.skip(j as int),
            ));
            assert(out.deep_view() + spec_split_list(s@.skip(j as int)) =~= spec_split_list(s@));
        }
        p = j;
    }
}

/// Whether a character separates list items.
pub fn is_list_sep_char(c: char) -> (r: bool)
    ensures
        r == spec_is_list_sep(c),
{
    c == ',' || crate::strutil::is_space_char(c)
}

/// What semver text parses and renders back to: the canonical form of the
/// version, or `None` where the text is no semver. A pure function of the
/// string.
pub uninterp spec fn semver_of(s: Seq<char>) -> Option<Seq<char>>;

/// Relies on semver::Version::parse and its rendering: validating and
/// normalizing a version answer is a pure string computation.
#[verifier::external_body]
pub fn parse_semver_input(input: &str) -> (r: Option<String>)
    ensures
        match r {
            Some(v) => semver_of(input@) == Some(v@),
            None => semver_of(input@) is None,
        },
{
    match input.parse::<semver::Version>() {
        Ok(v) => Some(v.to_string()),
        Err(_) => None,
    }
}

} // verus!
