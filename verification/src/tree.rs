use vstd::prelude::*;

verus! {

/// One file of the template tree, read into memory by the caller that owns
/// the filesystem: its raw bytes, its reading as text when the bytes are
/// valid text, and whether each optional ignore matcher excluded it.
pub struct FileNode {
    pub name: String,
    /// The file's bytes as they are on disk.
    pub content: Vec<u8>,
    /// The file read as text, or `None` when that read failed.
    pub text: Option<String>,
    /// An existing template-local ignore file matches this entry.
    pub matched_ignore: bool,
    /// An existing `.gitignore` at the template source matches this entry.
    pub matched_gitignore: bool,
}

/// One directory of the template tree.
pub struct DirNode {
    pub name: String,
    /// An existing template-local ignore file matches this entry.
    pub matched_ignore: bool,
    /// An existing `.gitignore` at the template source matches this entry.
    pub matched_gitignore: bool,
    pub entries: Vec<Entry>,
}

/// One entry of the template tree.
pub enum Entry {
    File(FileNode),
    Dir(DirNode),
}

pub open spec fn spec_entry_name(e: Entry) -> Seq<char> {
    match e {
        Entry::File(f) => f.name@,
        Entry::Dir(d) => d.name@,
    }
}

pub fn entry_name<'a>(e: &'a Entry) -> (r: &'a String)
    ensures
        r@ == spec_entry_name(*e),
{
    match e {
        Entry::File(f) => &f.name,
        Entry::Dir(d) => &d.name,
    }
}

/// First entry under `name` among `entries`.
pub open spec fn spec_find_child(entries: Seq<Entry>, name: Seq<char>) -> Option<Entry>
    decreases entries.len(),
{
    if entries.len() == 0 {
        None
    } else if spec_entry_name(entries[0]) == name {
        Some(entries[0])
    } else {
        spec_find_child(entries.drop_first(), name)
    }
}

/// Finds the first entry under `name` in a directory.
#[verifier::loop_isolation(false)]
pub fn find_child<'a>(entries: &'a Vec<Entry>, name: &str) -> (r: Option<&'a Entry>)
    ensures
        match r {
            Some(e) => spec_find_child(entries@, name@) == Some(*e),
            None => spec_find_child(entries@, name@) is None,
        },
{
    let mut i: usize = 0;
    proof {
        assert(entries@.skip(0) =~= entries@);
    }
    while i < entries.len()
        invariant
            0 <= i <= entries@.len(),
            spec_find_child(entries@, name@) == spec_find_child(entries@.skip(i as int), name@),
        decreases entries@.len() - i,
    {
        proof {
            assert(entries@.skip(i as int)[0] == entries@[i as int]);
        }
        if crate::strutil::str_eq(entry_name(&entries[i]).as_str(), name) {
            return Some(&entries[i]);
        }
        proof {
            assert(entries@.skip(i as int).drop_first() =~= entries@.skip(i as int + 1));
        }
        i = i + 1;
    }
    proof {
        assert(entries@.skip(entries@.len() as int).len() == 0);
    }
    None
}

/// The sub-directory reached by following `comps` from `d`, when every
/// component names a directory.
pub open spec fn spec_find_dir(d: DirNode, comps: Seq<Seq<char>>) -> Option<DirNode>
    decreases comps.len(),
{
    if comps.len() == 0 {
        Some(d)
    } else {
        match spec_find_child(d.entries@, comps[0]) {
            Some(Entry::Dir(sub)) => spec_find_dir(sub, comps.drop_first()),
            _ => None,
        }
    }
}

/// Follows directory components down the tree.
#[verifier::loop_isolation(false)]
pub fn find_dir<'a>(d: &'a DirNode, comps: &Vec<String>) -> (r: Option<&'a DirNode>)
    ensures
        match r {
            Some(sub) => spec_find_dir(*d, comps.deep_view()) == Some(*sub),
            None => spec_find_dir(*d, comps.deep_view()) is None,
        },
{
    let mut cur: &DirNode = d;
    let mut i: usize = 0;
    proof {
        assert(comps.deep_view().skip(0) =~= comps.deep_view());
    }
    while i < comps.len()
        invariant
            0 <= i <= comps@.len(),
            comps.deep_view().len() == comps@.len(),
            spec_find_dir(*d, comps.deep_view()) == spec_find_dir(
                *cur,
                comps.deep_view().skip(i as int),
            ),
        decreases comps@.len() - i,
    {
        proof {
            assert(comps.deep_view().skip(i as int)[0] == comps@[i as int]@);
            assert(comps.deep_view().skip(i as int).drop_first() =~= comps.deep_view().skip(
                i as int + 1,
            ));
        }
        match find_child(&cur.entries, comps[i].as_str()) {
            Some(Entry::Dir(sub)) => {
                cur = sub;
            },
            _ => {
                return None;
            },
        }
        i = i + 1;
    }
    proof {
        assert(comps.deep_view().skip(comps@.len() as int).len() == 0);
    }
    Some(cur)
}

/// Whether `comps` leads to an existing entry (file or directory) under `d`;
/// the empty path names `d` itself.
pub open spec fn spec_has_entry(d: DirNode, comps: Seq<Seq<char>>) -> bool
    decreases comps.len(),
{
    if comps.len() == 0 {
        true
    } else {
        match spec_find_child(d.entries@, comps[0]) {
            Some(e) => if comps.len() == 1 {
                true
            } else {
                e matches Entry::Dir(sub) && spec_has_entry(sub, comps.drop_first())
            },
            None => false,
        }
    }
}

/// Whether `comps` leads to an existing entry under `d`.
#[verifier::loop_isolation(false)]
pub fn has_entry(d: &DirNode, comps: &Vec<String>) -> (r: bool)
    ensures
        r == spec_has_entry(*d, comps.deep_view()),
{
    let mut cur: &DirNode = d;
    let mut i: usize = 0;
    proof {
        assert(comps.deep_view().skip(0) =~= comps.deep_view());
    }
    while i < comps.len()
        invariant
            0 <= i <= comps@.len(),
            comps.deep_view().len() == comps@.len(),
            spec_has_entry(*d, comps.deep_view()) == spec_has_entry(
                *cur,
                comps.deep_view().skip(i as int),
            ),
        decreases comps@.len() - i,
    {
        proof {
            assert(comps.deep_view().skip(i as int)[0] == comps@[i as int]@);
            assert(comps.deep_view().skip(i as int).drop_first() =~= comps.deep_view().skip(
                i as int + 1,
            ));
        }
        match find_child(&cur.entries, comps[i].as_str()) {
            Some(Entry::Dir(sub)) => {
                if i + 1 == comps.len() {
                    return true;
                }
                cur = sub;
            },
            Some(Entry::File(_)) => {
                return i + 1 == comps.len();
            },
            None => {
                return false;
            },
        }
        i = i + 1;
    }
    true
}

} // verus!
