use vstd::prelude::*;

verus! {

broadcast use vstd::string::group_string_axioms;

/// `p` is a prefix of `s`.
pub open spec fn spec_starts_with(s: Seq<char>, p: Seq<char>) -> bool {
    s.len() >= p.len() && s.subrange(0, p.len() as int) == p
}

/// Index of the first occurrence of `c` in `s`, or `s.len()` when `c` is absent.
pub open spec fn spec_idx_of(s: Seq<char>, c: char) -> int
    decreases s.len(),
{
    if s.len() == 0 {
        0
    } else if s[0] == c {
        0
    } else {
        1 + spec_idx_of(s.drop_first(), c)
    }
}

pub open spec fn spec_contains_char(s: Seq<char>, c: char) -> bool {
    spec_idx_of(s, c) < s.len()
}

pub proof fn lemma_idx_of(s: Seq<char>, c: char)
    ensures
        0 <= spec_idx_of(s, c) <= s.len(),
        spec_idx_of(s, c) < s.len() ==> s[spec_idx_of(s, c)] == c,
        forall|k: int| 0 <= k < spec_idx_of(s, c) ==> s[k] != c,
    decreases s.len(),
{
    if s.len() > 0 && s[0] != c {
        lemma_idx_of(s.drop_first(), c);
        assert(forall|k: int| 1 <= k < spec_idx_of(s, c) ==> s[k] == s.drop_first()[k - 1]);
    }
}

/// Index of the last occurrence of `c` in `s`, or `-1` when `c` is absent.
pub open spec fn spec_last_idx_of(s: Seq<char>, c: char) -> int
    decreases s.len(),
{
    if s.len() == 0 {
        -1
    } else if s[s.len() - 1] == c {
        s.len() - 1
    } else {
        spec_last_idx_of(s.drop_last(), c)
    }
}

pub proof fn lemma_last_idx_of(s: Seq<char>, c: char)
    ensures
        -1 <= spec_last_idx_of(s, c) < s.len(),
        spec_last_idx_of(s, c) >= 0 ==> s[spec_last_idx_of(s, c)] == c,
        forall|k: int| spec_last_idx_of(s, c) < k < s.len() ==> s[k] != c,
    decreases s.len(),
{
    if s.len() > 0 && s[s.len() - 1] != c {
        lemma_last_idx_of(s.drop_last(), c);
        assert(forall|k: int|
            spec_last_idx_of(s, c) < k < s.len() - 1 ==> s.drop_last()[k] == s[k]);
    }
}

/// The two strings hold the same characters.
pub fn str_eq(a: &str, b: &str) -> (r: bool)
    ensures
        r == (a@ == b@),
{
    let an = a.unicode_len();
    let bn = b.unicode_len();
    if an != bn {
        assert(a@ != b@);
        return false;
    }
    let mut i: usize = 0;
    while i < an
        invariant
            an == a@.len(),
            an == b@.len(),
            0 <= i <= an,
            forall|k: int| 0 <= k < i ==> a@[k] == b@[k],
        decreases an - i,
    {
        if a.get_char(i) != b.get_char(i) {
            return false;
        }
        i = i + 1;
    }
    proof {
        assert(a@ =~= b@);
    }
    true
}

/// Whether `s` starts with the prefix `p`.
pub fn str_starts_with(s: &str, p: &str) -> (r: bool)
    ensures
        r == spec_starts_with(s@, p@),
{
    let sn = s.unicode_len();
    let pn = p.unicode_len();
    if sn < pn {
        return false;
    }
    let mut i: usize = 0;
    while i < pn
        invariant
            sn == s@.len(),
            pn == p@.len(),
            pn <= sn,
            0 <= i <= pn,
            forall|k: int| 0 <= k < i ==> s@[k] == p@[k],
        decreases pn - i,
    {
        if s.get_char(i) != p.get_char(i) {
            assert(s@.subrange(0, pn as int)[i as int] != p@[i as int]);
            return false;
        }
        i = i + 1;
    }
    proof {
        assert(s@.subrange(0, pn as int) =~= p@);
    }
    true
}

/// First occurrence of `c` in `s`, as a character index.
pub fn str_find_char(s: &str, c: char) -> (r: usize)
    ensures
        r == spec_idx_of(s@, c),
{
    let n = s.unicode_len();
    let mut i: usize = 0;
    while i < n
        invariant
            n == s@.len(),
            0 <= i <= n,
            forall|k: int| 0 <= k < i ==> s@[k] != c,
        decreases n - i,
    {
        if s.get_char(i) == c {
            proof {
                lemma_idx_of_char_at(s@, c, i as int);
            }
            return i;
        }
        i = i + 1;
    }
    proof {
        lemma_idx_of(s@, c);
        if spec_idx_of(s@, c) < s@.len() {
            assert(s@[spec_idx_of(s@, c)] == c);
        }
    }
    n
}

/// When every character before `i` differs from `c` and `s[i] == c`, the first
/// occurrence of `c` is exactly `i`.
proof fn lemma_idx_of_char_at(s: Seq<char>, c: char, i: int)
    requires
        0 <= i < s.len(),
        s[i] == c,
        forall|k: int| 0 <= k < i ==> s[k] != c,
    ensures
        spec_idx_of(s, c) == i,
{
    lemma_idx_of(s, c);
    if spec_idx_of(s, c) < i {
        assert(s[spec_idx_of(s, c)] == c);
    }
}

/// Last occurrence of `c` in `s`.
pub fn str_last_idx_of(s: &str, c: char) -> (r: Option<usize>)
    ensures
        match r {
            Some(i) => spec_last_idx_of(s@, c) == i,
            None => spec_last_idx_of(s@, c) == -1,
        },
{
    let n = s.unicode_len();
    let mut i: usize = n;
    while i > 0
        invariant
            n == s@.len(),
            0 <= i <= n,
            forall|k: int| i <= k < n ==> s@[k] != c,
        decreases i,
    {
        i = i - 1;
        if s.get_char(i) == c {
            proof {
                lemma_last_idx_of(s@, c);
                if spec_last_idx_of(s@, c) > i {
                    assert(s@[spec_last_idx_of(s@, c)] == c);
                }
                if spec_last_idx_of(s@, c) < i {
                    assert(s@[i as int] != c);
                }
            }
            return Some(i);
        }
    }
    proof {
        lemma_last_idx_of(s@, c);
        if spec_last_idx_of(s@, c) >= 0 {
            assert(s@[spec_last_idx_of(s@, c)] == c);
        }
    }
    None
}


/// A concatenation starts with its left part.
pub proof fn lemma_concat_starts_with(a: Seq<char>, b: Seq<char>)
    ensures
        spec_starts_with(a + b, a),
{
    assert((a + b).subrange(0, a.len() as int) =~= a);
}

/// Starting with a concatenation means starting with its left part.
pub proof fn lemma_starts_with_prefix(e: Seq<char>, a: Seq<char>, b: Seq<char>)
    requires
        spec_starts_with(e, a + b),
    ensures
        spec_starts_with(e, a),
{
    assert(e.subrange(0, (a + b).len() as int) == a + b);
    assert(forall|k: int|
        0 <= k < a.len() ==> e.subrange(0, (a + b).len() as int)[k] == (a + b)[k]);
    assert(e.subrange(0, a.len() as int) =~= a);
}

/// The characters that `str::trim` removes: those with the Unicode
/// `White_Space` property.
pub open spec fn spec_is_space(c: char) -> bool {
    let u = c as u32;
    (0x9 <= u && u <= 0xD) || u == 0x20 || u == 0x85 || u == 0xA0 || u == 0x1680 || (0x2000 <= u
        && u <= 0x200A) || u == 0x2028 || u == 0x2029 || u == 0x202F || u == 0x205F || u == 0x3000
}

pub fn is_space_char(c: char) -> (r: bool)
    ensures
        r == spec_is_space(c),
{
    let u = c as u32;
    (0x9 <= u && u <= 0xD) || u == 0x20 || u == 0x85 || u == 0xA0 || u == 0x1680 || (0x2000 <= u
        && u <= 0x200A) || u == 0x2028 || u == 0x2029 || u == 0x202F || u == 0x205F || u == 0x3000
}

pub open spec fn spec_trim_start(s: Seq<char>) -> Seq<char>
    decreases s.len(),
{
    if s.len() > 0 && spec_is_space(s[0]) {
        spec_trim_start(s.drop_first())
    } else {
        s
    }
}

pub open spec fn spec_trim_end(s: Seq<char>) -> Seq<char>
    decreases s.len(),
{
    if s.len() > 0 && spec_is_space(s[s.len() - 1]) {
        spec_trim_end(s.drop_last())
    } else {
        s
    }
}

/// What `str::trim` leaves: `s` without leading and trailing white space.
pub open spec fn spec_trimmed(s: Seq<char>) -> Seq<char> {
    spec_trim_end(spec_trim_start(s))
}

/// Dropping a fully-white-space prefix of length `a` is exactly `spec_trim_start`.
proof fn lemma_trim_start_skip(s: Seq<char>, a: int)
    requires
        0 <= a <= s.len(),
        forall|k: int| 0 <= k < a ==> spec_is_space(s[k]),
        a == s.len() || !spec_is_space(s[a]),
    ensures
        spec_trim_start(s) == s.skip(a),
    decreases a,
{
    if a == 0 {
        assert(s.skip(0) =~= s);
    } else {
        lemma_trim_start_skip(s.drop_first(), a - 1);
        assert(s.drop_first().skip(a - 1) =~= s.skip(a));
    }
}

/// Keeping everything before a fully-white-space suffix is exactly `spec_trim_end`.
proof fn lemma_trim_end_take(s: Seq<char>, b: int)
    requires
        0 <= b <= s.len(),
        forall|k: int| b <= k < s.len() ==> spec_is_space(s[k]),
        b == 0 || !spec_is_space(s[b - 1]),
    ensures
        spec_trim_end(s) == s.take(b),
    decreases s.len() - b,
{
    if b == s.len() {
        assert(s.take(b) =~= s);
    } else {
        lemma_trim_end_take(s.drop_last(), b);
        assert(s.drop_last().take(b) =~= s.take(b));
    }
}

/// `str::trim` on character level: the input without leading and trailing
/// white space.
pub fn trim(s: &str) -> (r: &str)
    ensures
        r@ == spec_trimmed(s@),
{
    let n = s.unicode_len();
    let mut a: usize = 0;
    while a < n && is_space_char(s.get_char(a))
        invariant
            n == s@.len(),
            0 <= a <= n,
            forall|k: int| 0 <= k < a ==> spec_is_space(s@[k]),
        decreases n - a,
    {
        a = a + 1;
    }
    let mut b: usize = n;
    while b > a && is_space_char(s.get_char(b - 1))
        invariant
            n == s@.len(),
            a <= b <= n,
            forall|k: int| b <= k < n ==> spec_is_space(s@[k]),
        decreases b,
    {
        b = b - 1;
    }
    let r = s.substring_char(a, b);
    proof {
        lemma_trim_start_skip(s@, a as int);
        let t = s@.skip(a as int);
        lemma_trim_end_take(t, b - a);
        assert(t.take(b - a) =~= s@.subrange(a as int, b as int));
    }
    r
}

/// ASCII upper-case letters folded to lower case; other characters unchanged,
/// as a code point.
pub open spec fn spec_lower_u32(c: char) -> u32 {
    let u = c as u32;
    if 65 <= u && u <= 90 {
        (u + 32) as u32
    } else {
        u
    }
}

/// Equality up to ASCII case, the meaning `str::to_lowercase` comparison has
/// on ASCII text.
pub open spec fn spec_eq_ignore_ascii_case(a: Seq<char>, b: Seq<char>) -> bool {
    a.len() == b.len() && forall|k: int|
        0 <= k < a.len() ==> spec_lower_u32(a[k]) == spec_lower_u32(b[k])
}

pub fn str_eq_ignore_ascii_case(a: &str, b: &str) -> (r: bool)
    ensures
        r == spec_eq_ignore_ascii_case(a@, b@),
{
    let an = a.unicode_len();
    let bn = b.unicode_len();
    if an != bn {
        return false;
    }
    let mut i: usize = 0;
    while i < an
        invariant
            an == a@.len(),
            an == b@.len(),
            0 <= i <= an,
            forall|k: int| 0 <= k < i ==> spec_lower_u32(a@[k]) == spec_lower_u32(b@[k]),
        decreases an - i,
    {
        let ca = a.get_char(i) as u32;
        let cb = b.get_char(i) as u32;
        let la = if 65 <= ca && ca <= 90 {
            ca + 32
        } else {
            ca
        };
        let lb = if 65 <= cb && cb <= 90 {
            cb + 32
        } else {
            cb
        };
        if la != lb {
            return false;
        }
        i = i + 1;
    }
    true
}

} // verus!
