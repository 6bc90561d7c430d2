use vstd::prelude::*;
use crate::strutil::{
    spec_eq_ignore_ascii_case, spec_trimmed, str_eq, str_eq_ignore_ascii_case, trim,
};
use crate::tree::{spec_entry_name, Entry};

verus! {

broadcast use vstd::string::group_string_axioms;

/// The fixed ignore set, matched on an entry's base name: the
/// version-control directory, the dependency directory, the three accepted
/// config file names, and the template-local ignore file's name.
pub open spec fn spec_fixed_ignored(name: Seq<char>) -> bool {
    ||| name == ".git"@
    ||| name == "node_modules"@
    ||| name == "boilerplato.json"@
    ||| name == "boilerplato.yaml"@
    ||| name == "boilerplato.yml"@
    ||| name == ".boilerplatoignore"@
}

/// Whether an entry name is in the fixed ignore set.
pub fn is_fixed_ignored(name: &str) -> (r: bool)
    ensures
        r == spec_fixed_ignored(name@),
{
    str_eq(name, ".git") || str_eq(name, "node_modules") || str_eq(name, "boilerplato.json")
        || str_eq(name, "boilerplato.yaml") || str_eq(name, "boilerplato.yml") || str_eq(
        name,
        ".boilerplatoignore",
    )
}

/// Whether a rendered inclusion check excludes its entry: it does exactly
/// when the check trims to the empty text or, up to ASCII case, to `false`.
pub open spec fn spec_check_excludes(rendered: Seq<char>) -> bool {
    let t = spec_trimmed(rendered);
    t.len() == 0 || spec_eq_ignore_ascii_case(t, "false"@)
}

/// Whether a rendered inclusion check excludes its entry.
pub fn check_excludes(rendered: &str) -> (r: bool)
    ensures
        r == spec_check_excludes(rendered@),
{
    let t = trim(rendered);
    t.unicode_len() == 0 || str_eq_ignore_ascii_case(t, "false")
}

/// One file override with its render-capable parts already rendered: the
/// resolved key, the rendered inclusion check, whether that check excludes
/// the entry, and the rendered new name if one was declared.
pub struct ResolvedOverride {
    pub rel_path: String,
    pub check_rendered: String,
    pub excluded: bool,
    pub new_name: Option<String>,
}

/// First resolved override keyed by `rel`.
pub open spec fn spec_override_for(ov: Seq<ResolvedOverride>, rel: Seq<char>) -> Option<
    ResolvedOverride,
>
    decreases ov.len(),
{
    if ov.len() == 0 {
        None
    } else if ov[0].rel_path@ == rel {
        Some(ov[0])
    } else {
        spec_override_for(ov.drop_first(), rel)
    }
}

/// Finds the override resolved for a source-relative path.
#[verifier::loop_isolation(false)]
pub fn override_for<'a>(ov: &'a Vec<ResolvedOverride>, rel: &str) -> (r: Option<
    &'a ResolvedOverride,
>)
    ensures
        match r {
            Some(o) => spec_override_for(ov@, rel@) == Some(*o),
            None => spec_override_for(ov@, rel@) is None,
        },
{
    let mut i: usize = 0;
    proof {
        assert(ov@.skip(0) =~= ov@);
    }
    while i < ov.len()
        invariant
            0 <= i <= ov@.len(),
            spec_override_for(ov@, rel@) == spec_override_for(ov@.skip(i as int), rel@),
        decreases ov@.len() - i,
    {
        proof {
            assert(ov@.skip(i as int)[0] == ov@[i as int]);
        }
        if str_eq(ov[i].rel_path.as_str(), rel) {
            return Some(&ov[i]);
        }
        proof {
            assert(ov@.skip(i as int).drop_first() =~= ov@.skip(i as int + 1));
        }
        i = i + 1;
    }
    proof {
        assert(ov@.skip(ov@.len() as int).len() == 0);
    }
    None
}

/// Whether a sibling entry named `name` plus the template extension exists:
/// then the bare file is skipped so that the templated variant alone decides
/// the output.
pub open spec fn spec_has_templated_sibling(
    siblings: Seq<Entry>,
    name: Seq<char>,
    ext: Seq<char>,
) -> bool {
    exists|j: int| 0 <= j < siblings.len() && spec_entry_name(#[trigger] siblings[j]) == name + ext
}

/// Whether a sibling entry named `name` plus the template extension exists.
#[verifier::loop_isolation(false)]
pub fn has_templated_sibling(siblings: &Vec<Entry>, name: &str, ext: &str) -> (r: bool)
    ensures
        r == spec_has_templated_sibling(siblings@, name@, ext@),
{
    let mut templated = String::from_str(name);
    templated.append(ext);
    let mut i: usize = 0;
    while i < siblings.len()
        invariant
            0 <= i <= siblings@.len(),
            templated@ == name@ + ext@,
            forall|j: int| 0 <= j < i ==> spec_entry_name(#[trigger] siblings@[j]) != name@ + ext@,
        decreases siblings@.len() - i,
    {
        if str_eq(crate::tree::entry_name(&siblings[i]).as_str(), templated.as_str()) {
            return true;
        }
        i = i + 1;
    }
    false
}

pub open spec fn spec_entry_matched_ignore(e: Entry) -> bool {
    match e {
        Entry::File(f) => f.matched_ignore,
        Entry::Dir(d) => d.matched_ignore,
    }
}

pub open spec fn spec_entry_matched_gitignore(e: Entry) -> bool {
    match e {
        Entry::File(f) => f.matched_gitignore,
        Entry::Dir(d) => d.matched_gitignore,
    }
}

/// The whole ignore decision for one tree entry, any reason sufficing: its
/// base name is in the fixed set; the template-local ignore file matches it;
/// the template's `.gitignore` matches it and the source is local; an
/// override keyed by its source-relative path excludes it; or it is a file
/// whose templated sibling exists.
pub open spec fn spec_entry_ignored(
    e: Entry,
    rel: Seq<char>,
    is_local: bool,
    ov: Seq<ResolvedOverride>,
    siblings: Seq<Entry>,
    ext: Seq<char>,
) -> bool {
    let name = spec_entry_name(e);
    ||| spec_fixed_ignored(name)
    ||| spec_entry_matched_ignore(e)
    ||| (is_local && spec_entry_matched_gitignore(e))
    ||| (spec_override_for(ov, rel) matches Some(o) && o.excluded)
    ||| (e matches Entry::File(_) && spec_has_templated_sibling(siblings, name, ext))
}

/// Decides whether one tree entry is ignored.
pub fn is_ignored(
    e: &Entry,
    rel: &str,
    is_local: bool,
    ov: &Vec<ResolvedOverride>,
    siblings: &Vec<Entry>,
    ext: &str,
) -> (r: bool)
    ensures
        r == spec_entry_ignored(*e, rel@, is_local, ov@, siblings@, ext@),
{
    let name = crate::tree::entry_name(e);
    if is_fixed_ignored(name.as_str()) {
        return true;
    }
    let (matched_ignore, matched_gitignore, is_file) = match e {
        Entry::File(f) => (f.matched_ignore, f.matched_gitignore, true),
        Entry::Dir(d) => (d.matched_ignore, d.matched_gitignore, false),
    };
    if matched_ignore {
        return true;
    }
    if is_local && matched_gitignore {
        return true;
    }
    match override_for(ov, rel) {
        Some(o) => {
            if o.excluded {
                return true;
            }
        },
        None => (),
    }
    if is_file && has_templated_sibling(siblings, name.as_str(), ext) {
        return true;
    }
    false
}

/// An entry whose base name is in the fixed ignore set is ignored whatever
/// the overrides, the matchers and the siblings say.
pub proof fn lemma_fixed_ignore_precedence(
    e: Entry,
    rel: Seq<char>,
    is_local: bool,
    ov: Seq<ResolvedOverride>,
    siblings: Seq<Entry>,
    ext: Seq<char>,
)
    requires
        spec_fixed_ignored(spec_entry_name(e)),
    ensures
        spec_entry_ignored(e, rel, is_local, ov, siblings, ext),
{
}

/// An entry whose override check excluded it is ignored, whatever its
/// content and the other rules say.
pub proof fn lemma_override_exclusion(
    e: Entry,
    rel: Seq<char>,
    is_local: bool,
    ov: Seq<ResolvedOverride>,
    siblings: Seq<Entry>,
    ext: Seq<char>,
)
    requires
        spec_override_for(ov, rel) matches Some(o) && o.excluded,
    ensures
        spec_entry_ignored(e, rel, is_local, ov, siblings, ext),
{
}

} // verus!
