use vstd::prelude::*;

use crate::chars;
use crate::scan;

verus! {

/// One past the last non-whitespace character of `s`, or zero when `s` is
/// all whitespace.
pub open spec fn trim_end_spec(s: Seq<char>) -> int
    decreases s.len(),
{
    if s.len() == 0 {
        0
    } else if chars::is_space(s.last()) {
        trim_end_spec(s.drop_last())
    } else {
        s.len() as int
    }
}

/// `s` without its leading and trailing whitespace.
pub open spec fn trim_spec(s: Seq<char>) -> Seq<char> {
    let b = scan::skip_ws_spec(s, 0);
    let e = trim_end_spec(s);
    if b < e {
        s.subrange(b, e)
    } else {
        Seq::<char>::empty()
    }
}

/// What the cache read path yields from an entry's contents and age: the
/// contents trimmed of surrounding whitespace while the entry is fresh, and
/// nothing once it is as old as the window or older.
pub open spec fn read_model(contents: Seq<char>, age_secs: u64, max_age_secs: u64) -> Option<
    Seq<char>,
> {
    if age_secs < max_age_secs {
        Some(trim_spec(contents))
    } else {
        None
    }
}

proof fn lemma_trim_end_le(s: Seq<char>)
    ensures
        trim_end_spec(s) <= s.len(),
    decreases s.len(),
{
    if s.len() > 0 && chars::is_space(s.last()) {
        lemma_trim_end_le(s.drop_last());
    }
}

/// Trim the whitespace around `s`, as reading a cache entry does.
pub fn trim_value(s: &str) -> (r: String)
    ensures
        r@ == trim_spec(s@),
{
    let n = s.unicode_len();
    let b = scan::skip_ws(s, 0);
    let mut e = n;
    proof {
        assert(s@.subrange(0, n as int) =~= s@);
    }
    while e > b && chars::space(s.get_char(e - 1))
        invariant
            b <= e <= n,
            n == s@.len(),
            b == scan::skip_ws_spec(s@, 0),
            trim_end_spec(s@) == trim_end_spec(s@.subrange(0, e as int)),
        decreases e,
    {
        proof {
            let t = s@.subrange(0, e as int);
            assert(t.last() == s@[e - 1]);
            assert(t.drop_last() =~= s@.subrange(0, e - 1));
        }
        e -= 1;
    }
    proof {
        lemma_trim_end_le(s@.subrange(0, e as int));
        if e > b {
            let t = s@.subrange(0, e as int);
            assert(t.last() == s@[e - 1]);
            assert(trim_end_spec(t) == e);
        } else {
            assert(trim_end_spec(s@) <= b);
        }
    }
    let out = s.substring_char(b, e);
    proof {
        if b >= e {
            assert(s@.subrange(b as int, e as int) =~= Seq::<char>::empty());
        }
    }
    out.to_owned()
}

/// Whether a cache entry of age `age_secs` is still fresh under a window of
/// `max_age_secs`: strictly younger than the window. A window of zero keeps
/// nothing fresh.
pub fn is_fresh(age_secs: u64, max_age_secs: u64) -> (r: bool)
    ensures
        r == (age_secs < max_age_secs),
{
    age_secs < max_age_secs
}

/// Reading a just-written value back within the freshness window yields the
/// value trimmed of surrounding whitespace; a value with no whitespace around
/// it comes back exactly as written.
pub proof fn lemma_cache_round_trip(value: Seq<char>, age_secs: u64, max_age_secs: u64)
    requires
        age_secs < max_age_secs,
    ensures
        read_model(value, age_secs, max_age_secs) == Some(trim_spec(value)),
        value.len() > 0 && !chars::is_space(value[0]) && !chars::is_space(
            value[value.len() - 1],
        ) ==> trim_spec(value) == value,
{
    if value.len() > 0 && !chars::is_space(value[0]) && !chars::is_space(value[value.len() - 1]) {
        assert(value.last() == value[value.len() - 1]);
        assert(trim_end_spec(value) == value.len());
        assert(scan::skip_ws_spec(value, 0) == 0);
        assert(value.subrange(0, value.len() as int) =~= value);
    }
}

/// While an entry stays fresh, every read yields the same value, whatever
/// the entry's age at the moment of the read: repeated reads of a fresh
/// entry agree, and none of them asks for a fetch.
pub proof fn lemma_cache_read_stable(
    contents: Seq<char>,
    age1_secs: u64,
    age2_secs: u64,
    max_age_secs: u64,
)
    requires
        age1_secs < max_age_secs,
        age2_secs < max_age_secs,
    ensures
        read_model(contents, age1_secs, max_age_secs) == read_model(
            contents,
            age2_secs,
            max_age_secs,
        ),
        read_model(contents, age1_secs, max_age_secs) is Some,
{
}

} // verus!
