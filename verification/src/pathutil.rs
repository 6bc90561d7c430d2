use vstd::prelude::*;
use crate::strutil::{spec_idx_of, spec_last_idx_of, lemma_idx_of, str_find_char, str_last_idx_of};

verus! {

broadcast use vstd::string::group_string_axioms;

/// `s` split at every `/`, empty pieces included.
pub open spec fn spec_split_slash(s: Seq<char>) -> Seq<Seq<char>>
    decreases s.len(),
{
    let i = spec_idx_of(s, '/');
    if i >= s.len() {
        seq![s]
    } else {
        proof {
            lemma_idx_of(s, '/');
        }
        seq![s.subrange(0, i)] + spec_split_slash(s.skip(i + 1))
    }
}

/// Splits a path at `/` into its raw pieces.
#[verifier::loop_isolation(false)]
pub fn split_slash(s: &str) -> (r: Vec<String>)
    ensures
        r.deep_view() == spec_split_slash(s@),
{
    let mut out: Vec<String> = Vec::new();
    let n = s.unicode_len();
    let mut p: usize = 0;
    proof {
        assert(s@.skip(0) =~= s@);
        assert(out.deep_view() + spec_split_slash(s@) =~= spec_split_slash(s@));
    }
    loop
        invariant
            0 <= p <= n,
            out.deep_view() + spec_split_slash(s@.skip(p as int)) =~= spec_split_slash(s@),
        decreases n - p + 1,
    {
        let ghost tail = s@.skip(p as int);
        let rest = s.substring_char(p, n);
        let i = str_find_char(rest, '/');
        proof {
            lemma_idx_of(rest@, '/');
        }
        if i >= rest.unicode_len() {
            out.push(String::from_str(rest));
            proof {
                assert(spec_split_slash(tail) =~= seq![tail]);
                assert(out.deep_view() =~= spec_split_slash(s@));
            }
            return out;
        } else {
            let piece = rest.substring_char(0, i);
            out.push(String::from_str(piece));
            proof {
                assert(piece@ =~= tail.subrange(0, i as int));
                assert(rest@.skip(i as int + 1) =~= s@.skip(p as int + i as int + 1));
                assert(spec_split_slash(tail) =~= seq![tail.subrange(0, i as int)]
                    + spec_split_slash(s@.skip(p as int + i as int + 1)));
                assert(out.deep_view() + spec_split_slash(s@.skip(p as int + i as int + 1))
                    =~= spec_split_slash(s@));
            }
            p = p + i + 1;
        }
    }
}

/// The path segments that name something: raw pieces without the empty ones
/// and without `.`.
pub open spec fn spec_real_segments(pieces: Seq<Seq<char>>) -> Seq<Seq<char>>
    decreases pieces.len(),
{
    if pieces.len() == 0 {
        Seq::empty()
    } else if pieces[0].len() == 0 || pieces[0] == "."@ {
        spec_real_segments(pieces.drop_first())
    } else {
        seq![pieces[0]] + spec_real_segments(pieces.drop_first())
    }
}

/// The segments of a path: split at `/`, with empty pieces and `.` dropped.
pub open spec fn spec_segments_of(s: Seq<char>) -> Seq<Seq<char>> {
    spec_real_segments(spec_split_slash(s))
}

/// Splits a path into its real segments.
#[verifier::loop_isolation(false)]
pub fn segments_of(s: &str) -> (r: Vec<String>)
    ensures
        r.deep_view() == spec_segments_of(s@),
{
    let pieces = split_slash(s);
    let mut out: Vec<String> = Vec::new();
    let mut i: usize = 0;
    proof {
        assert(pieces.deep_view().skip(0) =~= pieces.deep_view());
        assert(out.deep_view() + spec_real_segments(pieces.deep_view()) =~= spec_real_segments(
            pieces.deep_view(),
        ));
    }
    while i < pieces.len()
        invariant
            0 <= i <= pieces@.len(),
            pieces.deep_view().len() == pieces@.len(),
            out.deep_view() + spec_real_segments(pieces.deep_view().skip(i as int))
                =~= spec_segments_of(s@),
        decreases pieces@.len() - i,
    {
        let ghost rest = pieces.deep_view().skip(i as int);
        proof {
            assert(rest[0] == pieces.deep_view()[i as int]);
            assert(pieces.deep_view()[i as int] == pieces@[i as int]@);
            assert(rest.drop_first() =~= pieces.deep_view().skip(i as int + 1));
        }
        let piece = &pieces[i];
        let keep = if piece.unicode_len() == 0 {
            false
        } else {
            proof {
                reveal_strlit(".");
            }
            !crate::strutil::str_eq(piece.as_str(), ".")
        };
        if keep {
            out.push(piece.clone());
            proof {
                assert(out.deep_view() + spec_real_segments(
                    pieces.deep_view().skip(i as int + 1),
                ) =~= spec_segments_of(s@));
            }
        }
        i = i + 1;
    }
    proof {
        assert(spec_real_segments(pieces.deep_view().skip(pieces@.len() as int)) =~= Seq::<
            Seq<char>,
        >::empty());
        assert(out.deep_view() =~= spec_segments_of(s@));
    }
    out
}

/// Resolves `..` segments against the segments before them, as
/// canonicalization does; `None` when a `..` would climb above the start.
pub open spec fn spec_resolve_dots(segs: Seq<Seq<char>>, acc: Seq<Seq<char>>) -> Option<
    Seq<Seq<char>>,
>
    decreases segs.len(),
{
    if segs.len() == 0 {
        Some(acc)
    } else if segs[0] == ".."@ {
        if acc.len() == 0 {
            None
        } else {
            spec_resolve_dots(segs.drop_first(), acc.drop_last())
        }
    } else {
        spec_resolve_dots(segs.drop_first(), acc.push(segs[0]))
    }
}

/// The normal form of a relative path: its real segments with `..` resolved,
/// or `None` when the path climbs above its start.
pub open spec fn spec_normalized(s: Seq<char>) -> Option<Seq<Seq<char>>> {
    spec_resolve_dots(spec_segments_of(s), Seq::empty())
}

/// Normalizes a relative path to its plain segments.
#[verifier::loop_isolation(false)]
pub fn normalize_path(s: &str) -> (r: Option<Vec<String>>)
    ensures
        match r {
            Some(v) => spec_normalized(s@) == Some(v.deep_view()),
            None => spec_normalized(s@) is None,
        },
{
    let segs = segments_of(s);
    let mut acc: Vec<String> = Vec::new();
    let mut i: usize = 0;
    proof {
        assert(segs.deep_view().skip(0) =~= segs.deep_view());
        assert(acc.deep_view() =~= Seq::<Seq<char>>::empty());
    }
    while i < segs.len()
        invariant
            0 <= i <= segs@.len(),
            segs.deep_view().len() == segs@.len(),
            spec_resolve_dots(segs.deep_view().skip(i as int), acc.deep_view())
                == spec_normalized(s@),
        decreases segs@.len() - i,
    {
        let ghost rest = segs.deep_view().skip(i as int);
        proof {
            assert(rest[0] == segs.deep_view()[i as int]);
            assert(segs.deep_view()[i as int] == segs@[i as int]@);
            assert(rest.drop_first() =~= segs.deep_view().skip(i as int + 1));
        }
        proof {
            reveal_strlit("..");
        }
        let ghost pre = acc.deep_view();
        if crate::strutil::str_eq(segs[i].as_str(), "..") {
            if acc.len() == 0 {
                return None;
            }
            let _ = acc.pop();
            proof {
                assert(acc.deep_view() =~= pre.drop_last());
            }
        } else {
            acc.push(segs[i].clone());
            proof {
                assert(acc.deep_view() =~= pre.push(segs@[i as int]@));
            }
        }
        proof {
            assert(spec_resolve_dots(segs.deep_view().skip(i as int + 1), acc.deep_view())
                == spec_normalized(s@));
        }
        i = i + 1;
    }
    proof {
        assert(segs.deep_view().skip(segs@.len() as int).len() == 0);
    }
    Some(acc)
}

/// Joins segments back into a `/`-separated path.
pub open spec fn spec_join_segments(segs: Seq<Seq<char>>) -> Seq<char>
    decreases segs.len(),
{
    if segs.len() == 0 {
        Seq::empty()
    } else if segs.len() == 1 {
        segs[0]
    } else {
        segs[0] + seq!['/'] + spec_join_segments(segs.drop_first())
    }
}

/// Joins segments into a `/`-separated path.
#[verifier::loop_isolation(false)]
pub fn join_segments(segs: &Vec<String>) -> (r: String)
    ensures
        r@ == spec_join_segments(segs.deep_view()),
{
    let mut out = String::new();
    if segs.len() == 0 {
        return out;
    }
    out.append(segs[0].as_str());
    let mut i: usize = 1;
    proof {
        assert(segs.deep_view().subrange(0, 1) =~= seq![segs.deep_view()[0]]);
        assert(spec_join_segments(seq![segs.deep_view()[0]]) == segs.deep_view()[0]);
        assert(out@ =~= spec_join_segments(segs.deep_view().subrange(0, 1)));
    }
    while i < segs.len()
        invariant
            1 <= i <= segs@.len(),
            segs.deep_view().len() == segs@.len(),
            out@ == spec_join_segments(segs.deep_view().subrange(0, i as int)),
        decreases segs@.len() - i,
    {
        out.append("/");
        out.append(segs[i].as_str());
        proof {
            reveal_strlit("/");
            assert("/"@ =~= seq!['/']);
            lemma_join_push(segs.deep_view().subrange(0, i as int), segs.deep_view()[i as int]);
            assert(segs.deep_view().subrange(0, i as int).push(segs.deep_view()[i as int])
                =~= segs.deep_view().subrange(0, i as int + 1));
        }
        i = i + 1;
    }
    proof {
        assert(segs.deep_view().subrange(0, segs@.len() as int) =~= segs.deep_view());
    }
    out
}

/// Appending one more segment appends a separator and the segment, once the
/// path is non-empty.
proof fn lemma_join_push(segs: Seq<Seq<char>>, x: Seq<char>)
    requires
        segs.len() >= 1,
    ensures
        spec_join_segments(segs.push(x)) == spec_join_segments(segs) + seq!['/'] + x,
    decreases segs.len(),
{
    if segs.len() == 1 {
        assert(segs.push(x)[0] == segs[0]);
        assert(segs.push(x).drop_first() =~= seq![x]);
        assert(spec_join_segments(seq![x]) == x);
        assert(spec_join_segments(segs.push(x)) =~= spec_join_segments(segs) + seq!['/'] + x);
    } else {
        lemma_join_push(segs.drop_first(), x);
        assert(segs.push(x).drop_first() =~= segs.drop_first().push(x));
        assert(segs.push(x)[0] == segs[0]);
        assert(spec_join_segments(segs.push(x)) =~= spec_join_segments(segs) + seq!['/'] + x);
    }
}

/// `a/b`, or just `b` when `a` is empty: how the walker accumulates paths.
pub open spec fn spec_join_rel(a: Seq<char>, b: Seq<char>) -> Seq<char> {
    if a.len() == 0 {
        b
    } else {
        a + seq!['/'] + b
    }
}

pub fn join_rel(a: &str, b: &str) -> (r: String)
    ensures
        r@ == spec_join_rel(a@, b@),
{
    if a.unicode_len() == 0 {
        String::from_str(b)
    } else {
        let mut out = String::from_str(a);
        out.append("/");
        out.append(b);
        proof {
            reveal_strlit("/");
            assert("/"@ =~= seq!['/']);
        }
        out
    }
}

/// The base name of a path: its last real segment; `None` when there is none
/// or the path ends in `..`.
pub open spec fn spec_base_name(p: Seq<char>) -> Option<Seq<char>> {
    let segs = spec_segments_of(p);
    if segs.len() == 0 {
        None
    } else if segs[segs.len() - 1] == ".."@ {
        None
    } else {
        Some(segs[segs.len() - 1])
    }
}

/// The base name of a path.
pub fn base_name(p: &str) -> (r: Option<String>)
    ensures
        match r {
            Some(n) => spec_base_name(p@) == Some(n@),
            None => spec_base_name(p@) is None,
        },
{
    let mut segs = segments_of(p);
    if segs.len() == 0 {
        return None;
    }
    let ghost dv = segs.deep_view();
    let last = segs.pop().unwrap();
    proof {
        assert(dv[dv.len() - 1] == last@);
        reveal_strlit("..");
    }
    if crate::strutil::str_eq(last.as_str(), "..") {
        None
    } else {
        Some(last)
    }
}

/// The extension of a file name: what follows the last `.`, unless the only
/// `.` is the leading character (a hidden file) or there is none.
pub open spec fn spec_extension_of(name: Seq<char>) -> Option<Seq<char>> {
    let d = spec_last_idx_of(name, '.');
    if d <= 0 {
        None
    } else {
        Some(name.skip(d + 1))
    }
}

/// The extension of a file name.
pub fn extension_of(name: &str) -> (r: Option<String>)
    ensures
        match r {
            Some(e) => spec_extension_of(name@) == Some(e@),
            None => spec_extension_of(name@) is None,
        },
{
    match str_last_idx_of(name, '.') {
        Some(d) => {
            if d == 0 {
                None
            } else {
                proof {
                    crate::strutil::lemma_last_idx_of(name@, '.');
                }
                let n = name.unicode_len();
                let e = name.substring_char(d + 1, n);
                Some(String::from_str(e))
            }
        },
        None => None,
    }
}

} // verus!
