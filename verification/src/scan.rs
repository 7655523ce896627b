use vstd::prelude::*;

use crate::chars;

verus! {

/// The pattern `pat` occurs in `s` starting at position `i`.
pub open spec fn occurs_at(s: Seq<char>, pat: Seq<char>, i: int) -> bool {
    0 <= i && i + pat.len() <= s.len() && s.subrange(i, i + pat.len()) == pat
}

/// The first position at or after `from` where `pat` occurs in `s`, if any.
pub open spec fn find_spec(s: Seq<char>, pat: Seq<char>, from: int) -> Option<int>
    decreases s.len() - from + 1,
{
    if from + pat.len() > s.len() {
        None
    } else if occurs_at(s, pat, from) {
        Some(from)
    } else {
        find_spec(s, pat, from + 1)
    }
}

/// The first position at or after `from` holding the character `c`, or
/// `s.len()` if there is none.
pub open spec fn find_char_spec(s: Seq<char>, c: char, from: int) -> int
    decreases s.len() - from,
{
    if from < 0 || from >= s.len() {
        s.len() as int
    } else if s[from] == c {
        from
    } else {
        find_char_spec(s, c, from + 1)
    }
}

/// The first position at or after `from` holding a non-whitespace character,
/// or `s.len()` if whitespace runs to the end.
pub open spec fn skip_ws_spec(s: Seq<char>, from: int) -> int
    decreases s.len() - from,
{
    if from < 0 || from >= s.len() {
        s.len() as int
    } else if chars::is_space(s[from]) {
        skip_ws_spec(s, from + 1)
    } else {
        from
    }
}

pub proof fn lemma_find_char_spec_props(s: Seq<char>, c: char, from: int)
    requires
        0 <= from <= s.len(),
    ensures
        from <= find_char_spec(s, c, from) <= s.len(),
        find_char_spec(s, c, from) < s.len() ==> s[find_char_spec(s, c, from)] == c,
        forall|j: int| from <= j < find_char_spec(s, c, from) ==> s[j] != c,
    decreases s.len() - from,
{
    if from < s.len() && s[from] != c {
        lemma_find_char_spec_props(s, c, from + 1);
    }
}

proof fn lemma_find_spec_hit(s: Seq<char>, pat: Seq<char>, from: int, i: int)
    requires
        0 <= from <= i,
        occurs_at(s, pat, i),
        forall|j: int| from <= j < i ==> !occurs_at(s, pat, j),
    ensures
        find_spec(s, pat, from) == Some(i),
    decreases i - from,
{
    if from < i {
        lemma_find_spec_hit(s, pat, from + 1, i);
    }
}

proof fn lemma_find_spec_miss(s: Seq<char>, pat: Seq<char>, from: int)
    requires
        0 <= from,
        pat.len() >= 1,
        forall|j: int| from <= j ==> !occurs_at(s, pat, j),
    ensures
        find_spec(s, pat, from) is None,
    decreases s.len() - from,
{
    if from + pat.len() <= s.len() {
        lemma_find_spec_miss(s, pat, from + 1);
    }
}

/// Whether `pat` occurs in `s` starting exactly at position `i`.
fn matches_at(s: &str, pat: &str, i: usize) -> (r: bool)
    requires
        i + pat@.len() <= s@.len() <= usize::MAX,
    ensures
        r == occurs_at(s@, pat@, i as int),
{
    let m = pat.unicode_len();
    let ghost sub = s@.subrange(i as int, i + pat@.len());
    let mut k: usize = 0;
    while k < m
        invariant
            k <= m,
            m == pat@.len(),
            i + m <= s@.len() <= usize::MAX,
            sub == s@.subrange(i as int, i + pat@.len()),
            forall|j: int| 0 <= j < k ==> s@[i + j] == pat@[j],
        decreases m - k,
    {
        let sc = s.get_char(i + k);
        let pc = pat.get_char(k);
        if sc != pc {
            proof {
                assert(sub[k as int] == s@[i + k]);
                assert(sub != pat@);
            }
            return false;
        }
        k += 1;
    }
    proof {
        assert forall|j: int| 0 <= j < pat@.len() implies sub[j] == pat@[j] by {
            assert(sub[j] == s@[i + j]);
        }
        assert(sub =~= pat@);
    }
    true
}

/// The first occurrence of `pat` in `s` at or after position `from`, by a
/// left-to-right scan.
pub fn find(s: &str, pat: &str, from: usize) -> (r: Option<usize>)
    requires
        from <= s@.len(),
        pat@.len() >= 1,
    ensures
        match r {
            Some(i) => find_spec(s@, pat@, from as int) == Some(i as int) && from <= i
                && occurs_at(s@, pat@, i as int),
            None => find_spec(s@, pat@, from as int) is None,
        },
{
    let n = s.unicode_len();
    let m = pat.unicode_len();
    if m > n || from > n - m {
        proof {
            assert forall|j: int| from <= j implies !occurs_at(s@, pat@, j) by {}
            lemma_find_spec_miss(s@, pat@, from as int);
        }
        return None;
    }
    let mut i = from;
    while i <= n - m
        invariant
            from <= i <= n - m + 1,
            m <= n,
            n == s@.len(),
            m == pat@.len(),
            m >= 1,
            forall|j: int| from <= j < i ==> !occurs_at(s@, pat@, j),
        decreases n - i,
    {
        if matches_at(s, pat, i) {
            proof {
                lemma_find_spec_hit(s@, pat@, from as int, i as int);
            }
            return Some(i);
        }
        i += 1;
    }
    proof {
        assert forall|j: int| from <= j implies !occurs_at(s@, pat@, j) by {}
        lemma_find_spec_miss(s@, pat@, from as int);
    }
    None
}

/// The first position at or after `from` holding `c`, or the length of `s`.
pub fn find_char(s: &str, c: char, from: usize) -> (r: usize)
    requires
        from <= s@.len(),
    ensures
        r == find_char_spec(s@, c, from as int),
        from <= r <= s@.len(),
{
    let n = s.unicode_len();
    let mut i = from;
    while i < n
        invariant
            from <= i <= n,
            n == s@.len(),
            find_char_spec(s@, c, from as int) == find_char_spec(s@, c, i as int),
        decreases n - i,
    {
        if s.get_char(i) == c {
            return i;
        }
        i += 1;
    }
    n
}

/// The first position at or after `from` holding a non-whitespace character,
/// or the length of `s`.
pub fn skip_ws(s: &str, from: usize) -> (r: usize)
    requires
        from <= s@.len(),
    ensures
        r == skip_ws_spec(s@, from as int),
        from <= r <= s@.len(),
{
    let n = s.unicode_len();
    let mut i = from;
    while i < n
        invariant
            from <= i <= n,
            n == s@.len(),
            skip_ws_spec(s@, from as int) == skip_ws_spec(s@, i as int),
        decreases n - i,
    {
        if !chars::space(s.get_char(i)) {
            return i;
        }
        i += 1;
    }
    n
}

} // verus!
