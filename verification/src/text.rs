//! Character-level building blocks for reading configuration text.

use vstd::prelude::*;
use vstd::string::*;

verus! {

/// Index of the first occurrence of `c` in `s`; `s.len()` when `c` does not occur.
pub open spec fn first_index(s: Seq<char>, c: char) -> nat
    decreases s.len(),
{
    if s.len() == 0 || s[0] == c {
        0
    } else {
        1 + first_index(s.subrange(1, s.len() as int), c)
    }
}

/// Index of the last occurrence of `c` in `s`; `-1` when `c` does not occur.
pub open spec fn last_index(s: Seq<char>, c: char) -> int
    decreases s.len(),
{
    if s.len() == 0 {
        -1
    } else if s.last() == c {
        s.len() - 1
    } else {
        last_index(s.drop_last(), c)
    }
}

/// Index of the first place where `c` stands twice in a row in `s`; `s.len()`
/// when there is no such place.
pub open spec fn first_pair(s: Seq<char>, c: char) -> nat
    decreases s.len(),
{
    if s.len() < 2 {
        s.len()
    } else if s[0] == c && s[1] == c {
        0
    } else {
        1 + first_pair(s.subrange(1, s.len() as int), c)
    }
}

/// The pieces of `s` between occurrences of `sep`. There is always at least one piece.
pub open spec fn split(s: Seq<char>, sep: char) -> Seq<Seq<char>>
    decreases s.len(),
{
    let k = first_index(s, sep);
    if k >= s.len() {
        seq![s]
    } else {
        seq![s.subrange(0, k as int)] + split(s.subrange(k as int + 1, s.len() as int), sep)
    }
}

/// `s` without the square brackets that enclose it: without a `[` at its
/// start and without a `]` at its end. What stands between the two ends is
/// kept as it is.
pub open spec fn unbracketed(s: Seq<char>) -> Seq<char> {
    let from: int = if s.len() > 0 && s[0] == '[' {
        1
    } else {
        0
    };
    let to: int = if s.len() > from && s.last() == ']' {
        s.len() - 1
    } else {
        s.len() as int
    };
    s.subrange(from, to)
}

/// The views of a vector of character vectors.
pub open spec fn views(v: Seq<Vec<char>>) -> Seq<Seq<char>> {
    Seq::new(v.len(), |i: int| v[i]@)
}

/// `first_index` is in range, nothing before it equals `c`, and it points at a `c`
/// unless it is the length.
pub proof fn lemma_first_index(s: Seq<char>, c: char)
    ensures
        first_index(s, c) <= s.len(),
        forall|j: int| 0 <= j < first_index(s, c) ==> s[j] != c,
        first_index(s, c) < s.len() ==> s[first_index(s, c) as int] == c,
    decreases s.len(),
{
    if s.len() == 0 || s[0] == c {
    } else {
        let t = s.subrange(1, s.len() as int);
        lemma_first_index(t, c);
        assert forall|j: int| 0 <= j < first_index(s, c) implies s[j] != c by {
            if j > 0 {
                assert(t[j - 1] == s[j]);
            }
        }
        if first_index(t, c) < t.len() {
            assert(t[first_index(t, c) as int] == s[first_index(t, c) as int + 1]);
        }
    }
}

/// An index with the properties of `first_index` is `first_index`.
pub proof fn lemma_first_index_is(s: Seq<char>, c: char, k: int)
    requires
        0 <= k <= s.len(),
        forall|j: int| 0 <= j < k ==> s[j] != c,
        k < s.len() ==> s[k] == c,
    ensures
        first_index(s, c) == k,
{
    lemma_first_index(s, c);
    let f = first_index(s, c) as int;
    if f < k {
        assert(s[f] != c);
    } else if k < f {
        assert(s[k] != c);
    }
}

/// `first_pair` is in range, no pair of `c` starts before it, and one starts at it
/// unless it is the length.
pub proof fn lemma_first_pair(s: Seq<char>, c: char)
    ensures
        first_pair(s, c) <= s.len(),
        forall|j: int| 0 <= j < first_pair(s, c) && j + 1 < s.len() ==> !(#[trigger] s[j] == c && s[j + 1] == c),
        first_pair(s, c) < s.len() ==> first_pair(s, c) + 1 < s.len() && s[first_pair(s, c) as int]
            == c && s[first_pair(s, c) as int + 1] == c,
    decreases s.len(),
{
    if s.len() < 2 || (s[0] == c && s[1] == c) {
    } else {
        let t = s.subrange(1, s.len() as int);
        lemma_first_pair(t, c);
        let k = first_pair(t, c) as int;
        assert forall|j: int| 0 <= j < first_pair(s, c) && j + 1 < s.len() implies !(#[trigger] s[j]
            == c && s[j + 1] == c) by {
            if j > 0 {
                assert(t[j - 1] == s[j] && t[j] == s[j + 1]);
            }
        }
        if k < t.len() {
            assert(t[k] == s[k + 1] && t[k + 1] == s[k + 2]);
        }
    }
}

/// An index with the properties of `first_pair` is `first_pair`.
pub proof fn lemma_first_pair_is(s: Seq<char>, c: char, k: int)
    requires
        0 <= k <= s.len(),
        forall|j: int| 0 <= j < k && j + 1 < s.len() ==> !(#[trigger] s[j] == c && s[j + 1] == c),
        k < s.len() ==> k + 1 < s.len() && s[k] == c && s[k + 1] == c,
    ensures
        first_pair(s, c) == k,
{
    lemma_first_pair(s, c);
    let f = first_pair(s, c) as int;
    if f < k {
        assert(!(s[f] == c && s[f + 1] == c));
    } else if k < f {
        assert(!(s[k] == c && s[k + 1] == c));
    }
}

/// `last_index` is in range, points at a `c`, and nothing after it equals `c`.
pub proof fn lemma_last_index(s: Seq<char>, c: char)
    ensures
        -1 <= last_index(s, c) < s.len(),
        forall|j: int| last_index(s, c) < j < s.len() ==> s[j] != c,
        last_index(s, c) >= 0 ==> s[last_index(s, c)] == c,
    decreases s.len(),
{
    if s.len() == 0 || s.last() == c {
    } else {
        let t = s.drop_last();
        lemma_last_index(t, c);
        assert forall|j: int| last_index(s, c) < j < s.len() implies s[j] != c by {
            if j < s.len() - 1 {
                assert(t[j] == s[j]);
            }
        }
        if last_index(t, c) >= 0 {
            assert(t[last_index(t, c)] == s[last_index(t, c)]);
        }
    }
}

/// An index with the properties of `last_index` is `last_index`.
pub proof fn lemma_last_index_is(s: Seq<char>, c: char, k: int)
    requires
        -1 <= k < s.len(),
        forall|j: int| k < j < s.len() ==> s[j] != c,
        k >= 0 ==> s[k] == c,
    ensures
        last_index(s, c) == k,
{
    lemma_last_index(s, c);
    let f = last_index(s, c);
    if f < k {
        assert(s[k] != c);
    } else if k < f {
        assert(s[f] != c);
    }
}

/// The characters of a string, in order.
pub fn to_chars(s: &str) -> (r: Vec<char>)
    ensures
        r@ == s@,
{
    let n: usize = s.unicode_len();
    let mut r: Vec<char> = Vec::new();
    let mut i: usize = 0;
    while i < n
        invariant
            n == s@.len(),
            i <= n,
            r@ == s@.subrange(0, i as int),
        decreases n - i,
    {
        r.push(s.get_char(i));
        i += 1;
        assert(r@ =~= s@.subrange(0, i as int));
    }
    assert(r@ =~= s@);
    r
}

/// The characters of `v` from index `from` up to, not including, `to`.
pub fn slice_chars(v: &Vec<char>, from: usize, to: usize) -> (r: Vec<char>)
    requires
        from <= to <= v@.len(),
    ensures
        r@ == v@.subrange(from as int, to as int),
{
    let mut r: Vec<char> = Vec::new();
    let mut i: usize = from;
    while i < to
        invariant
            from <= i <= to <= v@.len(),
            r@ == v@.subrange(from as int, i as int),
        decreases to - i,
    {
        r.push(v[i]);
        i += 1;
        assert(r@ =~= v@.subrange(from as int, i as int));
    }
    r
}

/// Position of the first `c` in `v` at or after `from`, or the length of `v`.
pub fn find_char(v: &Vec<char>, from: usize, c: char) -> (r: usize)
    requires
        from <= v@.len(),
    ensures
        r == from + first_index(v@.subrange(from as int, v@.len() as int), c),
        from <= r <= v@.len(),
{
    let mut i: usize = from;
    while i < v.len() && v[i] != c
        invariant
            from <= i <= v@.len(),
            forall|j: int| from <= j < i ==> v@[j] != c,
        decreases v@.len() - i,
    {
        i += 1;
    }
    proof {
        lemma_first_index_is(v@.subrange(from as int, v@.len() as int), c, i - from);
    }
    i
}

/// Position of the first place where `c` stands twice in a row in `v`, or the
/// length of `v`.
pub fn find_pair(v: &Vec<char>, c: char) -> (r: usize)
    ensures
        r == first_pair(v@, c),
        r <= v@.len(),
        r < v@.len() ==> r + 2 <= v@.len(),
{
    let n = v.len();
    let mut i: usize = 0;
    while i < n && !(i + 1 < n && v[i] == c && v[i + 1] == c)
        invariant
            n == v@.len(),
            i <= n,
            forall|j: int| 0 <= j < i && j + 1 < n ==> !(#[trigger] v@[j] == c && v@[j + 1] == c),
        decreases n - i,
    {
        i += 1;
    }
    proof {
        lemma_first_pair_is(v@, c, i as int);
    }
    i
}

/// Position of the last `c` in `v`, if there is one.
pub fn find_last_char(v: &Vec<char>, c: char) -> (r: Option<usize>)
    ensures
        match r {
            Some(k) => k == last_index(v@, c) && k < v@.len(),
            None => last_index(v@, c) == -1,
        },
{
    let mut i: usize = v.len();
    while i > 0 && v[i - 1] != c
        invariant
            i <= v@.len(),
            forall|j: int| i <= j < v@.len() ==> v@[j] != c,
        decreases i,
    {
        i -= 1;
    }
    proof {
        lemma_last_index_is(v@, c, i - 1);
    }
    if i == 0 {
        None
    } else {
        Some(i - 1)
    }
}

/// The pieces of `v` between occurrences of `sep`.
pub fn split_chars(v: &Vec<char>, sep: char) -> (r: Vec<Vec<char>>)
    ensures
        views(r@) == split(v@, sep),
        r@.len() >= 1,
{
    let mut out: Vec<Vec<char>> = Vec::new();
    let mut start: usize = 0;
    proof {
        assert(v@.subrange(0, v@.len() as int) =~= v@);
        assert(views(out@) + split(v@, sep) =~= split(v@, sep));
    }
    loop
        invariant
            start <= v@.len(),
            split(v@, sep) == views(out@) + split(v@.subrange(start as int, v@.len() as int), sep),
        decreases v@.len() - start,
    {
        let k = find_char(v, start, sep);
        let piece = slice_chars(v, start, k);
        let ghost rest = v@.subrange(start as int, v@.len() as int);
        let ghost before = views(out@);
        out.push(piece);
        proof {
            assert(rest.subrange(0, k - start) =~= v@.subrange(start as int, k as int));
            assert(views(out@) =~= before + seq![piece@]);
        }
        if k == v.len() {
            proof {
                assert(rest.subrange(0, k - start) =~= rest);
                assert(split(v@, sep) =~= views(out@));
            }
            return out;
        }
        proof {
            assert(rest.subrange(k - start + 1, rest.len() as int) =~= v@.subrange(
                k + 1,
                v@.len() as int,
            ));
            assert(split(v@, sep) =~= views(out@) + split(
                v@.subrange(k + 1, v@.len() as int),
                sep,
            ));
        }
        start = k + 1;
    }
}

/// `v` without the square brackets that enclose it.
pub fn strip_brackets(v: &Vec<char>) -> (r: Vec<char>)
    ensures
        r@ == unbracketed(v@),
{
    let n = v.len();
    let from: usize = if n > 0 && v[0] == '[' {
        1
    } else {
        0
    };
    let to: usize = if n > from && v[n - 1] == ']' {
        n - 1
    } else {
        n
    };
    slice_chars(v, from, to)
}

} // verus!
