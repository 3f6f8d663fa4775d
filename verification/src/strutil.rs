//! Small verified string helpers: equality, prefix/suffix tests, substring
//! search, and repeated suffix stripping.

use vstd::prelude::*;

verus! {

/// Relies on `String::push`: appends exactly the one character.
pub assume_specification [ std::string::String::push ](s: &mut std::string::String, ch: char)
    ensures
        final(s)@ == old(s)@.push(ch),
;

/// Character-for-character equality of two strings.
pub fn str_eq(a: &str, b: &str) -> (r: bool)
    ensures
        r == (a@ == b@),
{
    let na = a.unicode_len();
    let nb = b.unicode_len();
    if na != nb {
        assert(a@ != b@);
        return false;
    }
    let mut i: usize = 0;
    while i < na
        invariant
            na == a@.len(),
            na == b@.len(),
            i <= na,
            forall|k: int| 0 <= k < i ==> a@[k] == b@[k],
        decreases na - i,
    {
        if a.get_char(i) != b.get_char(i) {
            return false;
        }
        i = i + 1;
    }
    assert(a@ =~= b@);
    true
}

/// The pattern `p` occurs in `s` starting at index `i`.
pub open spec fn matches_at(s: Seq<char>, p: Seq<char>, i: int) -> bool {
    0 <= i && i + p.len() <= s.len() && s.subrange(i, i + p.len()) == p
}

/// `s` begins with `p`.
pub open spec fn has_prefix(s: Seq<char>, p: Seq<char>) -> bool {
    matches_at(s, p, 0)
}

/// `s` ends with `p`.
pub open spec fn has_suffix(s: Seq<char>, p: Seq<char>) -> bool {
    p.len() <= s.len() && matches_at(s, p, s.len() - p.len())
}

/// `p` occurs somewhere in `s`.
pub open spec fn contains_seq(s: Seq<char>, p: Seq<char>) -> bool {
    exists|i: int| matches_at(s, p, i)
}

/// Whether `p` matches `s` at position `i`.
pub fn matches_at_exec(s: &str, p: &str, i: usize) -> (r: bool)
    requires
        i + p@.len() <= s@.len(),
    ensures
        r == matches_at(s@, p@, i as int),
{
    let ns = s.unicode_len();
    let np = p.unicode_len();
    let mut k: usize = 0;
    while k < np
        invariant
            ns == s@.len(),
            np == p@.len(),
            i + np <= s@.len(),
            k <= np,
            forall|j: int| 0 <= j < k ==> s@[i + j] == p@[j],
        decreases np - k,
    {
        if s.get_char(i + k) != p.get_char(k) {
            assert(s@.subrange(i as int, i + np) != p@) by {
                assert(s@.subrange(i as int, i + np)[k as int] != p@[k as int]);
            }
            return false;
        }
        k = k + 1;
    }
    assert(s@.subrange(i as int, i + np) =~= p@);
    true
}

/// `s` begins with `p`.
pub fn str_starts_with(s: &str, p: &str) -> (r: bool)
    ensures
        r == has_prefix(s@, p@),
{
    let ns = s.unicode_len();
    let np = p.unicode_len();
    if np > ns {
        return false;
    }
    matches_at_exec(s, p, 0)
}

/// `s` ends with `p`.
pub fn str_ends_with(s: &str, p: &str) -> (r: bool)
    ensures
        r == has_suffix(s@, p@),
{
    let ns = s.unicode_len();
    let np = p.unicode_len();
    if np > ns {
        return false;
    }
    matches_at_exec(s, p, ns - np)
}

/// `p` occurs somewhere in `s`.
pub fn str_contains(s: &str, p: &str) -> (r: bool)
    ensures
        r == contains_seq(s@, p@),
{
    let ns = s.unicode_len();
    let np = p.unicode_len();
    if np > ns {
        assert(forall|i: int| !matches_at(s@, p@, i));
        return false;
    }
    if np == 0 {
        assert(s@.subrange(0, 0) =~= p@);
        assert(matches_at(s@, p@, 0));
        return true;
    }
    let mut i: usize = 0;
    while i <= ns - np
        invariant
            ns == s@.len(),
            np == p@.len(),
            1 <= np <= ns,
            i <= ns - np + 1,
            forall|k: int| 0 <= k < i ==> !matches_at(s@, p@, k),
        decreases ns + 1 - np - i,
    {
        if matches_at_exec(s, p, i) {
            return true;
        }
        i = i + 1;
    }
    assert(forall|k: int| !matches_at(s@, p@, k));
    false
}

/// The first position at or after `i` where `p` occurs in `s`, or -1.
pub open spec fn find_from(s: Seq<char>, p: Seq<char>, i: int) -> int
    decreases s.len() - i + 1,
{
    if i < 0 || i + p.len() > s.len() {
        -1
    } else if matches_at(s, p, i) {
        i
    } else {
        find_from(s, p, i + 1)
    }
}

/// Find the first occurrence of `p` in `s` at or after `from`.
pub fn str_find_from(s: &str, p: &str, from: usize) -> (r: Option<usize>)
    requires
        from <= s@.len(),
    ensures
        r matches Some(j) ==> find_from(s@, p@, from as int) == j && from <= j && j + p@.len()
            <= s@.len(),
        r is None ==> find_from(s@, p@, from as int) == -1,
{
    let ns = s.unicode_len();
    let np = p.unicode_len();
    if np > ns || from > ns - np {
        assert(find_from(s@, p@, from as int) == -1) by {
            lemma_find_from_short(s@, p@, from as int);
        }
        return None;
    }
    if np == 0 {
        assert(s@.subrange(from as int, from as int) =~= p@);
        assert(matches_at(s@, p@, from as int));
        return Some(from);
    }
    let mut i = from;
    while i <= ns - np
        invariant
            ns == s@.len(),
            np == p@.len(),
            1 <= np <= ns,
            from <= i <= ns - np + 1,
            find_from(s@, p@, from as int) == find_from(s@, p@, i as int),
        decreases ns + 1 - np - i,
    {
        if matches_at_exec(s, p, i) {
            return Some(i);
        }
        i = i + 1;
    }
    proof {
        lemma_find_from_short(s@, p@, i as int);
    }
    None
}

/// Past the last possible start, nothing is found.
proof fn lemma_find_from_short(s: Seq<char>, p: Seq<char>, i: int)
    ensures
        i + p.len() > s.len() ==> find_from(s, p, i) == -1,
{
}

/// ASCII whitespace, as trimming treats it.
pub open spec fn is_space(c: char) -> bool {
    c == ' ' || c == '\t' || c == '\n' || c == '\r'
}

/// `s` without its leading whitespace.
pub open spec fn trim_start_spec(s: Seq<char>) -> Seq<char>
    decreases s.len(),
{
    if s.len() > 0 && is_space(s[0]) {
        trim_start_spec(s.skip(1))
    } else {
        s
    }
}

/// `s` without its trailing whitespace.
pub open spec fn trim_end_spec(s: Seq<char>) -> Seq<char>
    decreases s.len(),
{
    if s.len() > 0 && is_space(s.last()) {
        trim_end_spec(s.drop_last())
    } else {
        s
    }
}

/// `s` without leading and trailing whitespace.
pub open spec fn trim_spec(s: Seq<char>) -> Seq<char> {
    trim_end_spec(trim_start_spec(s))
}

/// The index where the leading whitespace of `s` ends.
fn trim_start_idx(s: &str) -> (a: usize)
    ensures
        a <= s@.len(),
        trim_start_spec(s@) == s@.skip(a as int),
{
    let n = s.unicode_len();
    proof {
        assert(s@.skip(0) =~= s@);
    }
    let mut a: usize = 0;
    while a < n
        invariant
            n == s@.len(),
            a <= n,
            trim_start_spec(s@) == trim_start_spec(s@.skip(a as int)),
        decreases n - a,
    {
        let c = s.get_char(a);
        if c == ' ' || c == '\t' || c == '\n' || c == '\r' {
            proof {
                assert(s@.skip(a as int)[0] == s@[a as int]);
                assert(s@.skip(a as int).skip(1) =~= s@.skip(a + 1));
            }
            a = a + 1;
        } else {
            proof {
                assert(s@.skip(a as int)[0] == s@[a as int]);
            }
            return a;
        }
    }
    proof {
        assert(s@.skip(a as int) =~= Seq::<char>::empty());
    }
    a
}

/// Strip leading and trailing ASCII whitespace.
pub fn str_trim(s: &str) -> (r: &str)
    ensures
        r@ == trim_spec(s@),
{
    let n = s.unicode_len();
    let a = trim_start_idx(s);
    let mut b: usize = n;
    while b > a
        invariant
            n == s@.len(),
            a <= b <= n,
            trim_start_spec(s@) == s@.skip(a as int),
            trim_end_spec(s@.skip(a as int)) == trim_end_spec(s@.subrange(a as int, b as int)),
        decreases b,
    {
        let c = s.get_char(b - 1);
        if c == ' ' || c == '\t' || c == '\n' || c == '\r' {
            proof {
                assert(s@.subrange(a as int, b as int).last() == s@[b - 1]);
                assert(s@.subrange(a as int, b as int).drop_last() =~= s@.subrange(
                    a as int,
                    b - 1,
                ));
            }
            b = b - 1;
        } else {
            proof {
                let t = s@.subrange(a as int, b as int);
                assert(t.last() == s@[b - 1]);
                assert(trim_end_spec(t) == t);
            }
            let r = s.substring_char(a, b);
            assert(r@ =~= trim_spec(s@));
            return r;
        }
    }
    proof {
        assert(s@.subrange(a as int, b as int) =~= Seq::<char>::empty());
        assert(trim_end_spec(s@.subrange(a as int, b as int)) == s@.subrange(a as int, b as int));
    }
    let r = s.substring_char(a, b);
    assert(r@ =~= trim_spec(s@));
    return r;
}

/// Strip every leading copy of `p` from `s`.
pub open spec fn strip_prefix_all(s: Seq<char>, p: Seq<char>) -> Seq<char>
    decreases s.len(),
{
    if p.len() > 0 && has_prefix(s, p) {
        strip_prefix_all(s.skip(p.len() as int), p)
    } else {
        s
    }
}

/// Strip every leading copy of `p` from `s`.
pub fn str_strip_prefix_all<'a>(s: &'a str, p: &str) -> (r: &'a str)
    ensures
        r@ == strip_prefix_all(s@, p@),
{
    let np = p.unicode_len();
    let mut t = s;
    loop
        invariant
            np == p@.len(),
            strip_prefix_all(s@, p@) == strip_prefix_all(t@, p@),
        decreases t@.len(),
    {
        let nt = t.unicode_len();
        if np > 0 && str_starts_with(t, p) && np <= nt {
            t = t.substring_char(np, nt);
        } else {
            return t;
        }
    }
}

} // verus!
