use vstd::prelude::*;
use crate::value::{spec_assoc_value, spec_val_str, json_val_to_actual_str, TemplateValue};

verus! {

broadcast use vstd::string::group_string_axioms;

/// The answers collected for a run, keyed by data-spec name. Names are
/// unique, so first-match lookup is lookup.
pub type CollectedData = Vec<(String, TemplateValue)>;

/// A plain name-to-text map: the synthesized extra variables, or a snapshot
/// of the process environment.
pub type TextMap = Vec<(String, String)>;

/// The characters a variable name is made of: ASCII letters, digits and
/// underscore.
pub open spec fn spec_is_word_char(c: char) -> bool {
    let u = c as u32;
    (97 <= u && u <= 122) || (65 <= u && u <= 90) || (48 <= u && u <= 57) || u == 95
}

pub fn is_word_char(c: char) -> (r: bool)
    ensures
        r == spec_is_word_char(c),
{
    let u = c as u32;
    (97 <= u && u <= 122) || (65 <= u && u <= 90) || (48 <= u && u <= 57) || u == 95
}

/// Length of the maximal run of word characters at the front of `s`.
pub open spec fn spec_word_run(s: Seq<char>) -> nat
    decreases s.len(),
{
    if s.len() > 0 && spec_is_word_char(s[0]) {
        1 + spec_word_run(s.drop_first())
    } else {
        0
    }
}

pub proof fn lemma_word_run(s: Seq<char>)
    ensures
        0 <= spec_word_run(s) <= s.len(),
        forall|k: int| 0 <= k < spec_word_run(s) ==> spec_is_word_char(s[k]),
        spec_word_run(s) < s.len() ==> !spec_is_word_char(s[spec_word_run(s) as int]),
    decreases s.len(),
{
    if s.len() > 0 && spec_is_word_char(s[0]) {
        lemma_word_run(s.drop_first());
        assert(forall|k: int| 1 <= k < spec_word_run(s) ==> s[k] == s.drop_first()[k - 1]);
    }
}

/// When the first `m` characters are word characters and the next one (if
/// any) is not, the word run is exactly `m`.
pub proof fn lemma_word_run_at(s: Seq<char>, m: int)
    requires
        0 <= m <= s.len(),
        forall|k: int| 0 <= k < m ==> spec_is_word_char(s[k]),
        m == s.len() || !spec_is_word_char(s[m]),
    ensures
        spec_word_run(s) == m,
{
    lemma_word_run(s);
    if spec_word_run(s) < m {
        assert(spec_is_word_char(s[spec_word_run(s) as int]));
    }
    if spec_word_run(s) > m {
        assert(spec_is_word_char(s[m]));
    }
}

/// First entry of a name-to-text map under `name`.
pub open spec fn spec_lookup_str(pairs: Seq<(String, String)>, name: Seq<char>) -> Option<
    Seq<char>,
>
    decreases pairs.len(),
{
    if pairs.len() == 0 {
        None
    } else if pairs[0].0@ == name {
        Some(pairs[0].1@)
    } else {
        spec_lookup_str(pairs.drop_first(), name)
    }
}

/// The text a variable name resolves to: the collected answer under that
/// exact name first, then the synthesized extra variables, then the
/// environment, and the empty text when none has it.
pub open spec fn spec_var_value(
    name: Seq<char>,
    data: Seq<(String, TemplateValue)>,
    extras: Seq<(String, String)>,
    env: Seq<(String, String)>,
) -> Seq<char> {
    match spec_assoc_value(data, name) {
        Some(v) => spec_val_str(v),
        None => match spec_lookup_str(extras, name) {
            Some(s) => s,
            None => match spec_lookup_str(env, name) {
                Some(s) => s,
                None => Seq::empty(),
            },
        },
    }
}

/// A name found in the collected data resolves to the collected value, even
/// when the extra variables or the environment hold the same name.
pub proof fn lemma_substitution_precedence(
    name: Seq<char>,
    data: Seq<(String, TemplateValue)>,
    extras: Seq<(String, String)>,
    env: Seq<(String, String)>,
)
    requires
        spec_assoc_value(data, name) is Some,
    ensures
        spec_var_value(name, data, extras, env) == spec_val_str(
            spec_assoc_value(data, name).unwrap(),
        ),
{
}

/// One left-to-right pass replacing `$NAME` and `${NAME}` tokens by what the
/// name resolves to; replaced text is not scanned again. A lone `$` that
/// starts no token stays as it is.
pub open spec fn spec_substitute(
    s: Seq<char>,
    data: Seq<(String, TemplateValue)>,
    extras: Seq<(String, String)>,
    env: Seq<(String, String)>,
) -> Seq<char>
    decreases s.len(),
{
    if s.len() == 0 {
        Seq::empty()
    } else if s[0] == '$' {
        if s.len() >= 2 && s[1] == '{' {
            let run = spec_word_run(s.skip(2));
            if run > 0 && 2 + run < s.len() && s[2 + run as int] == '}' {
                spec_var_value(s.subrange(2, 2 + run as int), data, extras, env) + spec_substitute(
                    s.skip(3 + run as int),
                    data,
                    extras,
                    env,
                )
            } else {
                seq!['$'] + spec_substitute(s.skip(1), data, extras, env)
            }
        } else {
            let run = spec_word_run(s.skip(1));
            if run > 0 {
                proof {
                    lemma_word_run(s.skip(1));
                }
                spec_var_value(s.subrange(1, 1 + run as int), data, extras, env) + spec_substitute(
                    s.skip(1 + run as int),
                    data,
                    extras,
                    env,
                )
            } else {
                seq!['$'] + spec_substitute(s.skip(1), data, extras, env)
            }
        }
    } else {
        seq![s[0]] + spec_substitute(s.skip(1), data, extras, env)
    }
}

/// Text without `$` passes through substitution unchanged.
pub proof fn lemma_substitute_token_free(
    s: Seq<char>,
    data: Seq<(String, TemplateValue)>,
    extras: Seq<(String, String)>,
    env: Seq<(String, String)>,
)
    requires
        forall|k: int| 0 <= k < s.len() ==> s[k] != '$',
    ensures
        spec_substitute(s, data, extras, env) == s,
    decreases s.len(),
{
    if s.len() > 0 {
        assert(forall|k: int| 0 <= k < s.skip(1).len() ==> s.skip(1)[k] == s[k + 1]);
        lemma_substitute_token_free(s.skip(1), data, extras, env);
        assert(seq![s[0]] + s.skip(1) =~= s);
    }
}

/// First entry of the collected data under `name`.
fn assoc_value<'a>(data: &'a CollectedData, name: &str) -> (r: Option<&'a TemplateValue>)
    ensures
        match r {
            Some(v) => spec_assoc_value(data@, name@) == Some(*v),
            None => spec_assoc_value(data@, name@) is None,
        },
{
    let mut i: usize = 0;
    proof {
        assert(data@.skip(0) =~= data@);
    }
    while i < data.len()
        invariant
            0 <= i <= data@.len(),
            spec_assoc_value(data@, name@) == spec_assoc_value(data@.skip(i as int), name@),
        decreases data@.len() - i,
    {
        proof {
            assert(data@.skip(i as int)[0] == data@[i as int]);
        }
        if crate::strutil::str_eq(data[i].0.as_str(), name) {
            return Some(&data[i].1);
        }
        proof {
            assert(data@.skip(i as int).drop_first() =~= data@.skip(i as int + 1));
        }
        i = i + 1;
    }
    proof {
        assert(data@.skip(data@.len() as int).len() == 0);
    }
    None
}

/// First entry of a name-to-text map under `name`.
fn lookup_str<'a>(pairs: &'a TextMap, name: &str) -> (r: Option<&'a String>)
    ensures
        match r {
            Some(v) => spec_lookup_str(pairs@, name@) == Some(v@),
            None => spec_lookup_str(pairs@, name@) is None,
        },
{
    let mut i: usize = 0;
    proof {
        assert(pairs@.skip(0) =~= pairs@);
    }
    while i < pairs.len()
        invariant
            0 <= i <= pairs@.len(),
            spec_lookup_str(pairs@, name@) == spec_lookup_str(pairs@.skip(i as int), name@),
        decreases pairs@.len() - i,
    {
        proof {
            assert(pairs@.skip(i as int)[0] == pairs@[i as int]);
        }
        if crate::strutil::str_eq(pairs[i].0.as_str(), name) {
            return Some(&pairs[i].1);
        }
        proof {
            assert(pairs@.skip(i as int).drop_first() =~= pairs@.skip(i as int + 1));
        }
        i = i + 1;
    }
    proof {
        assert(pairs@.skip(pairs@.len() as int).len() == 0);
    }
    None
}

/// Resolves one variable name per [`spec_var_value`].
fn var_value(name: &str, data: &CollectedData, extras: &TextMap, env: &TextMap) -> (r: String)
    ensures
        r@ == spec_var_value(name@, data@, extras@, env@),
{
    match assoc_value(data, name) {
        Some(v) => json_val_to_actual_str(v),
        None => match lookup_str(extras, name) {
            Some(s) => s.clone(),
            None => match lookup_str(env, name) {
                Some(s) => s.clone(),
                None => String::new(),
            },
        },
    }
}

/// Replaces every `$NAME` / `${NAME}` token in `text` by what the name
/// resolves to, with collected data taking precedence over the synthesized
/// extra variables, and those over the environment snapshot.
#[verifier::loop_isolation(false)]
#[verifier::rlimit(60)]
pub fn substitute_variable_in_text(
    text: &str,
    template_data: &CollectedData,
    extra_data: &TextMap,
    env_vars: &TextMap,
) -> (r: String)
    ensures
        r@ == spec_substitute(text@, template_data@, extra_data@, env_vars@),
{
    let ghost d = template_data@;
    let ghost e = extra_data@;
    let ghost ev = env_vars@;
    let n = text.unicode_len();
    let mut out = String::new();
    let mut i: usize = 0;
    proof {
        assert(text@.skip(0) =~= text@);
        assert(out@ + spec_substitute(text@, d, e, ev) =~= spec_substitute(text@, d, e, ev));
    }
    while i < n
        invariant
            0 <= i <= n,
            spec_substitute(text@, d, e, ev) == out@ + spec_substitute(text@.skip(i as int), d, e, ev),
        decreases n - i,
    {
        let ghost tail = text@.skip(i as int);
        proof {
            assert(tail[0] == text@[i as int]);
        }
        let c = text.get_char(i);
        if c == '$' {
            if i + 1 < n && text.get_char(i + 1) == '{' {
                proof {
                    assert(tail[1] == text@[i as int + 1]);
                }
                let mut j = i + 2;
                while j < n && is_word_char(text.get_char(j))
                    invariant
                        i + 2 <= j <= n,
                        forall|k: int| i + 2 <= k < j ==> spec_is_word_char(text@[k]),
                    decreases n - j,
                {
                    j = j + 1;
                }
                proof {
                    assert(tail.skip(2) =~= text@.skip(i as int + 2));
                    assert(forall|k: int| #![trigger text@.skip(i as int + 2)[k]]
                        0 <= k < j - i - 2 ==> text@.skip(i as int + 2)[k] == text@[i as int + 2
                            + k]);
                    lemma_word_run_at(text@.skip(i as int + 2), j - i - 2);
                }
                if j > i + 2 && j < n && text.get_char(j) == '}' {
                    let name = text.substring_char(i + 2, j);
                    let val = var_value(name, template_data, extra_data, env_vars);
                    out.append(val.as_str());
                    proof {
                        assert(tail.subrange(2, 2 + (j - i - 2)) =~= text@.subrange(
                            i as int + 2,
                            j as int,
                        ));
                        assert(tail.skip(3 + (j - i - 2)) =~= text@.skip(j as int + 1));
                        assert(spec_substitute(tail, d, e, ev) == spec_var_value(
                            text@.subrange(i as int + 2, j as int),
                            d,
                            e,
                            ev,
                        ) + spec_substitute(text@.skip(j as int + 1), d, e, ev));
                    }
                    i = j + 1;
                } else {
                    out.append("$");
                    proof {
                        reveal_strlit("$");
                        assert("$"@ =~= seq!['$']);
                        assert(tail.skip(1) =~= text@.skip(i as int + 1));
                        assert(spec_substitute(tail, d, e, ev) == seq!['$'] + spec_substitute(
                            text@.skip(i as int + 1),
                            d,
                            e,
                            ev,
                        ));
                    }
                    i = i + 1;
                }
            } else {
                let mut j = i + 1;
                while j < n && is_word_char(text.get_char(j))
                    invariant
                        i + 1 <= j <= n,
                        forall|k: int| i + 1 <= k < j ==> spec_is_word_char(text@[k]),
                    decreases n - j,
                {
                    j = j + 1;
                }
                proof {
                    assert(tail.skip(1) =~= text@.skip(i as int + 1));
                    assert(forall|k: int| #![trigger text@.skip(i as int + 1)[k]]
                        0 <= k < j - i - 1 ==> text@.skip(i as int + 1)[k] == text@[i as int + 1
                            + k]);
                    lemma_word_run_at(text@.skip(i as int + 1), j - i - 1);
                    if i + 1 < n {
                        assert(tail[1] == text@[i as int + 1]);
                    }
                }
                if j > i + 1 {
                    let name = text.substring_char(i + 1, j);
                    let val = var_value(name, template_data, extra_data, env_vars);
                    out.append(val.as_str());
                    proof {
                        assert(tail.subrange(1, 1 + (j - i - 1)) =~= text@.subrange(
                            i as int + 1,
                            j as int,
                        ));
                        assert(tail.skip(1 + (j - i - 1)) =~= text@.skip(j as int));
                        assert(spec_substitute(tail, d, e, ev) == spec_var_value(
                            text@.subrange(i as int + 1, j as int),
                            d,
                            e,
                            ev,
                        ) + spec_substitute(text@.skip(j as int), d, e, ev));
                    }
                    i = j;
                } else {
                    out.append("$");
                    proof {
                        reveal_strlit("$");
                        assert("$"@ =~= seq!['$']);
                        assert(spec_substitute(tail, d, e, ev) == seq!['$'] + spec_substitute(
                            text@.skip(i as int + 1),
                            d,
                            e,
                            ev,
                        ));
                    }
                    i = i + 1;
                }
            }
        } else {
            let piece = text.substring_char(i, i + 1);
            out.append(piece);
            proof {
                assert(text@.subrange(i as int, i as int + 1) =~= seq![text@[i as int]]);
                assert(tail.skip(1) =~= text@.skip(i as int + 1));
                assert(spec_substitute(tail, d, e, ev) == seq![text@[i as int]] + spec_substitute(
                    text@.skip(i as int + 1),
                    d,
                    e,
                    ev,
                ));
            }
            i = i + 1;
        }
    }
    proof {
        assert(text@.skip(n as int).len() == 0);
        assert(out@ + spec_substitute(text@.skip(n as int), d, e, ev) =~= out@);
    }
    out
}

} // verus!
