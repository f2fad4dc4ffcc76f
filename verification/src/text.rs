//! Verified text utilities: substring search, removal of every
//! occurrence of a pattern, and splitting on a separator character.

use vstd::prelude::*;

verus! {

/// The pattern `pat` occurs in `s` starting at index `i`.
pub open spec fn occurs_at(s: Seq<char>, pat: Seq<char>, i: int) -> bool {
    &&& 0 <= i
    &&& i + pat.len() <= s.len()
    &&& s.subrange(i, i + pat.len() as int) == pat
}

/// `s` with every leftmost, non-overlapping occurrence of `pat` removed.
pub open spec fn removed_all(s: Seq<char>, pat: Seq<char>) -> Seq<char>
    decreases s.len(),
{
    if pat.len() == 0 || s.len() < pat.len() {
        s
    } else if s.subrange(0, pat.len() as int) == pat {
        removed_all(s.skip(pat.len() as int), pat)
    } else {
        seq![s[0]] + removed_all(s.skip(1), pat)
    }
}

/// Whether `pat` occurs at position `i` of `s`, by character comparison.
pub fn match_at(s: &str, pat: &str, i: usize) -> (r: bool)
    requires
        i + pat@.len() <= s@.len(),
    ensures
        r <==> s@.subrange(i as int, i + pat@.len() as int) == pat@,
{
    let n = pat.unicode_len();
    let sn = s.unicode_len();
    let mut j: usize = 0;
    while j < n
        invariant
            j <= n,
            n == pat@.len(),
            sn == s@.len(),
            i + n <= sn,
            forall|k: int| 0 <= k < j ==> s@[i + k] == pat@[k],
        decreases n - j,
    {
        if s.get_char(i + j) != pat.get_char(j) {
            assert(s@.subrange(i as int, i + pat@.len() as int) != pat@) by {
                assert(s@.subrange(i as int, i + pat@.len() as int)[j as int] == s@[i + j]);
            }
            return false;
        }
        j += 1;
    }
    assert(s@.subrange(i as int, i + pat@.len() as int) =~= pat@);
    true
}

/// Remove every leftmost occurrence of `pat` from `s`, as
/// `str::replace(pat, "")` does.
pub fn remove_all(s: &str, pat: &str) -> (r: String)
    requires
        pat@.len() > 0,
    ensures
        r@ == removed_all(s@, pat@),
{
    let n = s.unicode_len();
    let plen = pat.unicode_len();
    let mut out = String::new();
    let mut i: usize = 0;
    proof {
        assert(s@.skip(0) =~= s@);
        assert(out@ + removed_all(s@, pat@) =~= removed_all(s@, pat@));
    }
    while i < n
        invariant
            i <= n,
            n == s@.len(),
            plen == pat@.len(),
            plen > 0,
            out@ + removed_all(s@.skip(i as int), pat@) == removed_all(s@, pat@),
        decreases n - i,
    {
        let ghost rest = s@.skip(i as int);
        if plen <= n - i && match_at(s, pat, i) {
            proof {
                assert(rest.subrange(0, plen as int) =~= s@.subrange(
                    i as int,
                    i + plen as int,
                ));
                assert(rest.skip(plen as int) =~= s@.skip(i + plen as int));
            }
            i += plen;
        } else {
            proof {
                if i + plen <= n {
                    assert(rest.subrange(0, plen as int) =~= s@.subrange(
                        i as int,
                        i + plen as int,
                    ));
                }
                assert(rest.skip(1) =~= s@.skip(i + 1));
                assert(rest[0] == s@[i as int]);
            }
            let piece = s.substring_char(i, i + 1);
            out.append(piece);
            proof {
                assert(piece@ =~= seq![s@[i as int]]);
            }
            i += 1;
        }
    }
    proof {
        assert(s@.skip(n as int) =~= Seq::<char>::empty());
        assert(out@ + removed_all(s@.skip(n as int), pat@) =~= out@);
    }
    out
}

/// Index of the first occurrence of character `c` in `s` at or after
/// `from`; `s.len()` when there is none.
pub open spec fn first_char_at_or_after(s: Seq<char>, c: char, from: int) -> int
    decreases s.len() - from when 0 <= from <= s.len()
{
    if from >= s.len() {
        s.len() as int
    } else if s[from] == c {
        from
    } else {
        first_char_at_or_after(s, c, from + 1)
    }
}

pub proof fn lemma_first_char_bounds(s: Seq<char>, c: char, from: int)
    requires
        0 <= from <= s.len(),
    ensures
        from <= first_char_at_or_after(s, c, from) <= s.len(),
        forall|k: int|
            from <= k < first_char_at_or_after(s, c, from) ==> s[k] != c,
        first_char_at_or_after(s, c, from) < s.len() ==> s[first_char_at_or_after(
            s,
            c,
            from,
        )] == c,
    decreases s.len() - from,
{
    if from < s.len() && s[from] != c {
        lemma_first_char_bounds(s, c, from + 1);
    }
}

/// Find the first occurrence of `c` at or after `from`, returning
/// `s.len()` when there is none.
pub fn find_char_from(s: &str, c: char, from: usize) -> (r: usize)
    requires
        from <= s@.len(),
    ensures
        r == first_char_at_or_after(s@, c, from as int),
{
    let n = s.unicode_len();
    let mut i: usize = from;
    while i < n
        invariant
            from <= i <= n,
            n == s@.len(),
            first_char_at_or_after(s@, c, from as int) == first_char_at_or_after(
                s@,
                c,
                i as int,
            ),
        decreases n - i,
    {
        if s.get_char(i) == c {
            return i;
        }
        i += 1;
    }
    n
}

/// Index of the last occurrence of `c` in `s[from..to]`, if any.
pub open spec fn last_char_in(s: Seq<char>, c: char, from: int, to: int) -> Option<int>
    decreases to - from when 0 <= from <= to <= s.len()
{
    if to <= from {
        None
    } else if s[to - 1] == c {
        Some(to - 1)
    } else {
        last_char_in(s, c, from, to - 1)
    }
}

pub proof fn lemma_last_char_bounds(s: Seq<char>, c: char, from: int, to: int)
    requires
        0 <= from <= to <= s.len(),
    ensures
        match last_char_in(s, c, from, to) {
            Some(j) => from <= j < to && s[j] == c && forall|k: int| j < k < to ==> s[k] != c,
            None => forall|k: int| from <= k < to ==> s[k] != c,
        },
    decreases to - from,
{
    if to > from && s[to - 1] != c {
        lemma_last_char_bounds(s, c, from, to - 1);
    }
}

/// Find the last occurrence of `c` in `s[from..to]`.
pub fn rfind_char_in(s: &str, c: char, from: usize, to: usize) -> (r: Option<usize>)
    requires
        from <= to <= s@.len(),
    ensures
        match r {
            Some(j) => last_char_in(s@, c, from as int, to as int) == Some(j as int),
            None => last_char_in(s@, c, from as int, to as int) is None,
        },
{
    let mut j: usize = to;
    while j > from
        invariant
            from <= j <= to <= s@.len(),
            last_char_in(s@, c, from as int, to as int) == last_char_in(
                s@,
                c,
                from as int,
                j as int,
            ),
        decreases j,
    {
        if s.get_char(j - 1) == c {
            return Some(j - 1);
        }
        j -= 1;
    }
    None
}

/// `s` split at the first occurrence of `c`: the parts before and after
/// the separator, which is kept in neither.
pub open spec fn split_first(s: Seq<char>, c: char) -> Option<(Seq<char>, Seq<char>)> {
    let i = first_char_at_or_after(s, c, 0);
    if i < s.len() {
        Some((s.subrange(0, i), s.subrange(i + 1, s.len() as int)))
    } else {
        None
    }
}

/// Split `s` at the first occurrence of `c`, as `str::split_once` does.
pub fn split_once_char(s: &str, c: char) -> (r: Option<(String, String)>)
    ensures
        match r {
            Some(parts) => split_first(s@, c) == Some((parts.0@, parts.1@)),
            None => split_first(s@, c) is None,
        },
{
    let n = s.unicode_len();
    let i = find_char_from(s, c, 0);
    if i < n {
        let left = s.substring_char(0, i);
        let right = s.substring_char(i + 1, n);
        Some((left.to_owned(), right.to_owned()))
    } else {
        None
    }
}

/// The pattern `pat` occurs somewhere in `s`.
pub open spec fn contains_sub(s: Seq<char>, pat: Seq<char>) -> bool {
    exists|i: int| occurs_at(s, pat, i)
}

/// Test whether `pat` occurs anywhere in `s`, as `str::contains` does.
pub fn contains_str(s: &str, pat: &str) -> (r: bool)
    ensures
        r <==> contains_sub(s@, pat@),
{
    let n = s.unicode_len();
    let plen = pat.unicode_len();
    if plen == 0 {
        proof {
            assert(s@.subrange(0, 0) =~= pat@);
            assert(occurs_at(s@, pat@, 0));
        }
        return true;
    }
    if plen > n {
        proof {
            assert(forall|i: int| !occurs_at(s@, pat@, i));
        }
        return false;
    }
    let mut i: usize = 0;
    while i <= n - plen
        invariant
            1 <= plen <= n,
            n == s@.len(),
            plen == pat@.len(),
            i <= n - plen + 1,
            forall|k: int| 0 <= k < i ==> !occurs_at(s@, pat@, k),
        decreases n - i,
    {
        if match_at(s, pat, i) {
            proof {
                assert(occurs_at(s@, pat@, i as int));
            }
            return true;
        }
        i += 1;
    }
    proof {
        assert(forall|k: int| k > n - plen ==> !occurs_at(s@, pat@, k));
    }
    false
}

/// Test two string slices for character-wise equality.
pub fn str_eq(a: &str, b: &str) -> (r: bool)
    ensures
        r <==> a@ == b@,
{
    let an = a.unicode_len();
    let bn = b.unicode_len();
    if an != bn {
        proof {
            assert(a@ != b@);
        }
        return false;
    }
    let r = match_at(a, b, 0);
    proof {
        if r {
            assert(a@.subrange(0, b@.len() as int) =~= a@);
        } else {
            assert(a@.subrange(0, b@.len() as int) =~= a@);
        }
    }
    r
}

/// Whether `s` begins with `pat`.
pub open spec fn begins_with(s: Seq<char>, pat: Seq<char>) -> bool {
    pat.len() <= s.len() && s.subrange(0, pat.len() as int) == pat
}

/// Test whether `s` begins with `pat`, as `str::starts_with` does.
pub fn starts_with_str(s: &str, pat: &str) -> (r: bool)
    ensures
        r <==> begins_with(s@, pat@),
{
    let n = s.unicode_len();
    let plen = pat.unicode_len();
    if plen <= n {
        match_at(s, pat, 0)
    } else {
        false
    }
}

} // verus!
