use vstd::prelude::*;
use crate::error::Error;
use crate::strutil::{
    spec_contains_char, spec_idx_of, spec_starts_with, spec_trimmed, str_find_char,
    str_starts_with, trim,
};

verus! {

broadcast use vstd::string::group_string_axioms;

/// Where a template comes from, decided once from the user-supplied source
/// string and immutable afterwards.
#[derive(Debug, PartialEq)]
pub enum ProjectTemplate {
    InBuilt(String),
    Github(String, String),
    Local(String),
    AnyGitRepo(String),
}

/// The repository part of a `owner/repo` shorthand: the segment between the
/// first slash and the next slash (or the end); anything after a second slash
/// is dropped.
pub open spec fn spec_github_repo(t: Seq<char>) -> Seq<char> {
    let rest = t.skip(spec_idx_of(t, '/') + 1);
    rest.subrange(0, spec_idx_of(rest, '/'))
}

/// How a trimmed source string is classified, first match winning:
/// a `file:` prefix names a local path, an `http:`/`https:` prefix any git
/// URL, a string with a slash a GitHub `owner/repo` shorthand, and anything
/// else a built-in template name.
pub open spec fn spec_classifies(t: Seq<char>, r: ProjectTemplate) -> bool {
    if spec_starts_with(t, "file:"@) {
        r matches ProjectTemplate::Local(p) && p@ == t.skip("file:"@.len() as int)
    } else if spec_starts_with(t, "http:"@) || spec_starts_with(t, "https:"@) {
        r matches ProjectTemplate::AnyGitRepo(u) && u@ == t
    } else if spec_contains_char(t, '/') {
        r matches ProjectTemplate::Github(h, rp) && h@ == t.subrange(0, spec_idx_of(t, '/'))
            && rp@ == spec_github_repo(t)
    } else {
        r matches ProjectTemplate::InBuilt(n) && n@ == t
    }
}

impl ProjectTemplate {
    /// Classifies a source string, pure and total: every string falls in
    /// exactly one of the four shapes.
    pub fn parse(template: &str) -> (r: ProjectTemplate)
        ensures
            spec_classifies(spec_trimmed(template@), r),
    {
        let t = trim(template);
        let n = t.unicode_len();
        if str_starts_with(t, "file:") {
            proof {
                reveal_strlit("file:");
            }
            let rest = t.substring_char(5, n);
            ProjectTemplate::Local(String::from_str(rest))
        } else if str_starts_with(t, "http:") || str_starts_with(t, "https:") {
            ProjectTemplate::AnyGitRepo(String::from_str(t))
        } else {
            let i = str_find_char(t, '/');
            proof {
                crate::strutil::lemma_idx_of(t@, '/');
            }
            if i < n {
                let handle = t.substring_char(0, i);
                let rest = t.substring_char(i + 1, n);
                let j = str_find_char(rest, '/');
                proof {
                    crate::strutil::lemma_idx_of(rest@, '/');
                    assert(rest@ =~= t@.skip(i + 1));
                }
                let repo = rest.substring_char(0, j);
                ProjectTemplate::Github(String::from_str(handle), String::from_str(repo))
            } else {
                ProjectTemplate::InBuilt(String::from_str(t))
            }
        }
    }
}

/// What `url::Url::join` resolves a relative reference to against a base URL
/// string, serialized back; `None` where parsing or joining fails. A pure
/// function of the two strings.
pub uninterp spec fn url_resolved(base: Seq<char>, rel: Seq<char>) -> Option<Seq<char>>;

/// Relies on url::Url::parse and url::Url::join: resolving a relative
/// reference against an absolute base is a pure string computation.
#[verifier::external_body]
fn resolve_url(base: &str, rel: &str) -> (r: Option<String>)
    ensures
        match r {
            Some(u) => url_resolved(base@, rel@) == Some(u@),
            None => url_resolved(base@, rel@) is None,
        },
{
    match url::Url::parse(base) {
        Ok(u) => match u.join(rel) {
            Ok(j) => Some(j.as_str().to_string()),
            Err(_) => None,
        },
        Err(_) => None,
    }
}

/// What `url::Url::parse` normalizes a URL string to, serialized back;
/// `None` where the string is not a valid URL. A pure function of the string.
pub uninterp spec fn url_normalized(s: Seq<char>) -> Option<Seq<char>>;

/// Relies on url::Url::parse: parsing and reserializing a URL is a pure
/// string computation.
#[verifier::external_body]
fn normalize_url(s: &str) -> (r: Option<String>)
    ensures
        match r {
            Some(u) => url_normalized(s@) == Some(u@),
            None => url_normalized(s@) is None,
        },
{
    match url::Url::parse(s) {
        Ok(u) => Some(u.as_str().to_string()),
        Err(_) => None,
    }
}

impl ProjectTemplate {
    /// The fully-qualified repository URL that must be cloned for this
    /// template: built-in names resolve against the fixed organization
    /// prefix, GitHub shorthands against the fixed host prefix, any-git
    /// sources are validated and normalized, and local paths need no clone.
    pub fn repo_url(&self) -> (r: Result<Option<String>, Error>)
        ensures
            match self {
                ProjectTemplate::Local(_) => r matches Ok(None),
                ProjectTemplate::InBuilt(name) => match url_resolved(
                    "https://github.com/boilerplato/"@,
                    name@,
                ) {
                    Some(u) => r matches Ok(Some(s)) && s@ == u,
                    None => r matches Err(e) && e@ == "Failed to create in-built template repo URL"@,
                },
                ProjectTemplate::Github(handle, repo) => match url_resolved(
                    "https://github.com/"@,
                    handle@ + "/"@,
                ) {
                    Some(u1) => match url_resolved(u1, repo@) {
                        Some(u2) => r matches Ok(Some(s)) && s@ == u2,
                        None => r matches Err(e) && e@
                            == "Failed to create Github template repo URL"@,
                    },
                    None => r matches Err(e) && e@ == "Failed to create Github template repo URL"@,
                },
                ProjectTemplate::AnyGitRepo(u) => match url_normalized(u@) {
                    Some(n) => r matches Ok(Some(s)) && s@ == n,
                    None => r matches Err(e) && e@ == "Provided template Git repo URL is invalid"@,
                },
            },
    {
        match self {
            ProjectTemplate::Local(_) => Ok(None),
            ProjectTemplate::InBuilt(name) => {
                match resolve_url("https://github.com/boilerplato/", name.as_str()) {
                    Some(u) => Ok(Some(u)),
                    None => Err(
                        Error::new(String::from_str("Failed to create in-built template repo URL")),
                    ),
                }
            },
            ProjectTemplate::Github(handle, repo) => {
                let mut seg = handle.clone();
                seg.append("/");
                match resolve_url("https://github.com/", seg.as_str()) {
                    Some(u1) => match resolve_url(u1.as_str(), repo.as_str()) {
                        Some(u2) => Ok(Some(u2)),
                        None => Err(
                            Error::new(
                                String::from_str("Failed to create Github template repo URL"),
                            ),
                        ),
                    },
                    None => Err(
                        Error::new(String::from_str("Failed to create Github template repo URL")),
                    ),
                }
            },
            ProjectTemplate::AnyGitRepo(u) => {
                match normalize_url(u.as_str()) {
                    Some(n) => Ok(Some(n)),
                    None => Err(
                        Error::new(String::from_str("Provided template Git repo URL is invalid")),
                    ),
                }
            },
        }
    }
}

} // verus!
