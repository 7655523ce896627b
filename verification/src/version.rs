use vstd::prelude::*;

use crate::chars;
use crate::errors::Error;
use crate::errors::UpdateInfo;
use crate::scan;

verus! {

/// A parsed semantic version: `major.minor.patch`, optionally followed by
/// `-` and dot-separated pre-release identifiers, optionally followed by `+`
/// and dot-separated build metadata identifiers.
#[derive(Debug, Clone, PartialEq, Eq)]
pub struct Version {
    pub major: u64,
    pub minor: u64,
    pub patch: u64,
    /// Pre-release identifiers, without the leading `-`, split at the dots.
    pub pre: Vec<String>,
    /// Build metadata identifiers, without the leading `+`, split at the dots.
    pub build: Vec<String>,
}

/// The mathematical shape of a version: numbers and identifier sequences.
pub ghost struct VersionModel {
    pub major: int,
    pub minor: int,
    pub patch: int,
    pub pre: Seq<Seq<char>>,
    pub build: Seq<Seq<char>>,
}

/// The identifier sequences a vector of strings stands for.
pub open spec fn idents_view(v: Seq<String>) -> Seq<Seq<char>> {
    v.map_values(|s: String| s@)
}

impl Version {
    /// The mathematical value of this version.
    pub open spec fn model(&self) -> VersionModel {
        VersionModel {
            major: self.major as int,
            minor: self.minor as int,
            patch: self.patch as int,
            pre: idents_view(self.pre@),
            build: idents_view(self.build@),
        }
    }

    /// Every identifier is well formed, as parsing guarantees.
    pub open spec fn wf(&self) -> bool {
        wf_model(self.model())
    }
}

/// Every character is an ASCII digit.
pub open spec fn all_digits(s: Seq<char>) -> bool {
    forall|i: int| 0 <= i < s.len() ==> chars::is_digit(s[i])
}

/// A well-formed identifier: non-empty, over ASCII alphanumerics and `-`;
/// a pre-release identifier made of digits only must not have a leading zero.
pub open spec fn valid_ident(s: Seq<char>, is_pre: bool) -> bool {
    &&& s.len() > 0
    &&& forall|i: int| 0 <= i < s.len() ==> chars::is_ident_char(s[i])
    &&& (is_pre && s.len() > 1 && all_digits(s) ==> s[0] != '0')
}

/// A model whose identifiers are all well formed.
pub open spec fn wf_model(m: VersionModel) -> bool {
    &&& forall|k: int| 0 <= k < m.pre.len() ==> valid_ident(#[trigger] m.pre[k], true)
    &&& forall|k: int| 0 <= k < m.build.len() ==> valid_ident(#[trigger] m.build[k], false)
}

/// The value of a string of decimal digits, most significant digit first.
pub open spec fn num_val(s: Seq<char>) -> int
    decreases s.len(),
{
    if s.len() == 0 {
        0
    } else {
        num_val(s.drop_last()) * 10 + chars::digit_value(s.last())
    }
}

/// The end of the run of digits starting at `from`: the first position at or
/// after `from` holding a non-digit, or the length of `s`.
pub open spec fn digit_run_end(s: Seq<char>, from: int) -> int
    decreases s.len() - from,
{
    if from < 0 || from >= s.len() {
        s.len() as int
    } else if !chars::is_digit(s[from]) {
        from
    } else {
        digit_run_end(s, from + 1)
    }
}

/// The digits `s[from .. end)` form a valid numeric component: non-empty, no
/// leading zero, and a value that fits in a `u64`.
pub open spec fn valid_num_run(s: Seq<char>, from: int, end: int) -> bool {
    &&& from < end
    &&& (s[from] == '0' ==> end == from + 1)
    &&& num_val(s.subrange(from, end)) <= u64::MAX
}

proof fn lemma_num_val_push(s: Seq<char>, c: char)
    ensures
        num_val(s.push(c)) == num_val(s) * 10 + chars::digit_value(c),
{
    assert(s.push(c).drop_last() =~= s);
    assert(s.push(c).last() == c);
}

proof fn lemma_num_val_nonneg(s: Seq<char>)
    requires
        all_digits(s),
    ensures
        num_val(s) >= 0,
    decreases s.len(),
{
    if s.len() > 0 {
        assert(all_digits(s.drop_last()));
        lemma_num_val_nonneg(s.drop_last());
        assert(chars::is_digit(s.last()));
    }
}

proof fn lemma_digit_run_end_at(s: Seq<char>, from: int, i: int)
    requires
        0 <= from <= i <= s.len(),
        forall|j: int| from <= j < i ==> chars::is_digit(s[j]),
        i == s.len() || !chars::is_digit(s[i]),
    ensures
        digit_run_end(s, from) == i,
    decreases i - from,
{
    if from < i {
        lemma_digit_run_end_at(s, from + 1, i);
    }
}

/// Scan the run of digits starting at `from` and read it as a `u64`. Yields
/// the value and the run's end, or nothing when the run is empty, carries a
/// leading zero, or overflows.
fn scan_num(s: &str, from: usize) -> (r: Option<(u64, usize)>)
    requires
        from <= s@.len(),
    ensures
        match r {
            Some(p) => {
                &&& p.1 == digit_run_end(s@, from as int)
                &&& valid_num_run(s@, from as int, p.1 as int)
                &&& p.0 == num_val(s@.subrange(from as int, p.1 as int))
                &&& from < p.1 <= s@.len()
            },
            None => !valid_num_run(s@, from as int, digit_run_end(s@, from as int)),
        },
{
    let n = s.unicode_len();
    let mut i = from;
    let mut val: u64 = 0;
    let mut over = false;
    loop
        invariant
            from <= i <= n,
            n == s@.len(),
            forall|j: int| from <= j < i ==> chars::is_digit(s@[j]),
            !over ==> val == num_val(s@.subrange(from as int, i as int)),
            over ==> num_val(s@.subrange(from as int, i as int)) > u64::MAX,
            num_val(s@.subrange(from as int, i as int)) >= 0,
        ensures
            from <= i <= n,
            forall|j: int| from <= j < i ==> chars::is_digit(s@[j]),
            i == digit_run_end(s@, from as int),
            !over ==> val == num_val(s@.subrange(from as int, i as int)),
            over ==> num_val(s@.subrange(from as int, i as int)) > u64::MAX,
        decreases n - i,
    {
        if i == n || !chars::digit(s.get_char(i)) {
            proof {
                lemma_digit_run_end_at(s@, from as int, i as int);
            }
            break;
        }
        let c = s.get_char(i);
        let d = (c as u32 - 0x30) as u64;
        proof {
            assert(s@.subrange(from as int, i + 1) =~= s@.subrange(from as int, i as int).push(
                s@[i as int],
            ));
            lemma_num_val_push(s@.subrange(from as int, i as int), s@[i as int]);
        }
        if over || val > (u64::MAX - d) / 10 {
            over = true;
        } else {
            val = val * 10 + d;
        }
        i += 1;
    }
    if i == from {
        return None;
    }
    if over {
        return None;
    }
    if i > from + 1 && s.get_char(from) == '0' {
        return None;
    }
    Some((val, i))
}

/// The segments of `s[from..]`, split at the dots. A dot at the very end, or
/// two dots in a row, yield an empty segment.
pub open spec fn split_dots_from(s: Seq<char>, from: int) -> Seq<Seq<char>>
    decreases s.len() - from,
    when 0 <= from <= s.len()
    via split_dots_from_dec
{
    let d = scan::find_char_spec(s, '.', from);
    if d >= s.len() {
        seq![s.subrange(from, s.len() as int)]
    } else {
        seq![s.subrange(from, d)] + split_dots_from(s, d + 1)
    }
}

#[via_fn]
proof fn split_dots_from_dec(s: Seq<char>, from: int) {
    scan::lemma_find_char_spec_props(s, '.', from);
}

/// The segments of `s`, split at the dots.
pub open spec fn split_dots(s: Seq<char>) -> Seq<Seq<char>> {
    split_dots_from(s, 0)
}

/// A valid pre-release or build section: non-empty, with every dot-separated
/// identifier well formed.
pub open spec fn valid_part(p: Seq<char>, is_pre: bool) -> bool {
    &&& p.len() > 0
    &&& forall|k: int|
        0 <= k < split_dots(p).len() ==> valid_ident(#[trigger] split_dots(p)[k], is_pre)
}

/// Whether `seg` is a well-formed identifier.
fn check_ident(seg: &str, is_pre: bool) -> (r: bool)
    ensures
        r == valid_ident(seg@, is_pre),
{
    let n = seg.unicode_len();
    if n == 0 {
        return false;
    }
    let mut digits_only = true;
    let mut i: usize = 0;
    while i < n
        invariant
            i <= n,
            n == seg@.len(),
            forall|j: int| 0 <= j < i ==> chars::is_ident_char(seg@[j]),
            digits_only == (forall|j: int| 0 <= j < i ==> chars::is_digit(seg@[j])),
        decreases n - i,
    {
        let c = seg.get_char(i);
        if !chars::ident_char(c) {
            return false;
        }
        if !chars::digit(c) {
            digits_only = false;
        }
        i += 1;
    }
    if is_pre && digits_only && n > 1 && seg.get_char(0) == '0' {
        return false;
    }
    true
}

proof fn lemma_idents_view_push(v: Seq<String>, x: String)
    ensures
        idents_view(v.push(x)) =~= idents_view(v).push(x@),
{
}

/// Split `part` at the dots and collect the identifiers, or nothing when the
/// section is empty or some identifier is not well formed.
fn parse_idents(part: &str, is_pre: bool) -> (r: Option<Vec<String>>)
    ensures
        match r {
            Some(v) => valid_part(part@, is_pre) && idents_view(v@) == split_dots(part@),
            None => !valid_part(part@, is_pre),
        },
{
    let n = part.unicode_len();
    if n == 0 {
        return None;
    }
    let mut out: Vec<String> = Vec::new();
    let mut start: usize = 0;
    loop
        invariant
            start <= n,
            n == part@.len(),
            n >= 1,
            split_dots(part@) == idents_view(out@) + split_dots_from(part@, start as int),
            forall|k: int|
                0 <= k < out@.len() ==> valid_ident(#[trigger] idents_view(out@)[k], is_pre),
        decreases n - start,
    {
        let d = scan::find_char(part, '.', start);
        let seg = part.substring_char(start, d);
        let ghost head = split_dots_from(part@, start as int)[0];
        proof {
            assert(head == seg@);
            assert(split_dots(part@)[out@.len() as int] == seg@);
        }
        if !check_ident(seg, is_pre) {
            return None;
        }
        let owned = seg.to_owned();
        proof {
            lemma_idents_view_push(out@, owned);
        }
        out.push(owned);
        if d == n {
            proof {
                assert(split_dots_from(part@, start as int) =~= seq![seg@]);
                assert(idents_view(out@) =~= split_dots(part@));
            }
            return Some(out);
        }
        proof {
            assert(split_dots_from(part@, start as int) =~= seq![seg@] + split_dots_from(
                part@,
                d + 1,
            ));
            assert(idents_view(out@) + split_dots_from(part@, d + 1) =~= split_dots(part@));
        }
        start = d + 1;
    }
}

/// What follows the `major.minor.patch` triple at position `p`: nothing, a
/// `-` and a pre-release section running to the first `+` or to the end, then
/// optionally a `+` and a build section running to the end.
pub open spec fn parse_tail_spec(s: Seq<char>, p: int) -> Option<(Seq<Seq<char>>, Seq<Seq<char>>)> {
    if p == s.len() {
        Some((Seq::<Seq<char>>::empty(), Seq::<Seq<char>>::empty()))
    } else if s[p] == '-' {
        let plus = scan::find_char_spec(s, '+', p + 1);
        let pre_part = s.subrange(p + 1, plus);
        if !valid_part(pre_part, true) {
            None
        } else if plus == s.len() {
            Some((split_dots(pre_part), Seq::<Seq<char>>::empty()))
        } else {
            let build_part = s.subrange(plus + 1, s.len() as int);
            if valid_part(build_part, false) {
                Some((split_dots(pre_part), split_dots(build_part)))
            } else {
                None
            }
        }
    } else if s[p] == '+' {
        let build_part = s.subrange(p + 1, s.len() as int);
        if valid_part(build_part, false) {
            Some((Seq::<Seq<char>>::empty(), split_dots(build_part)))
        } else {
            None
        }
    } else {
        None
    }
}

/// The version that `s` parses as, if any: three dot-separated numeric
/// components, each non-empty, without a leading zero and fitting in a `u64`,
/// then a well-formed tail.
pub open spec fn parse_spec(s: Seq<char>) -> Option<VersionModel> {
    let e1 = digit_run_end(s, 0);
    let b2 = e1 + 1;
    let e2 = digit_run_end(s, b2);
    let b3 = e2 + 1;
    let e3 = digit_run_end(s, b3);
    if !(valid_num_run(s, 0, e1) && e1 < s.len() && s[e1] == '.' && valid_num_run(s, b2, e2) && e2
        < s.len() && s[e2] == '.' && valid_num_run(s, b3, e3)) {
        None
    } else {
        match parse_tail_spec(s, e3) {
            Option::None => None,
            Option::Some(tail) => Some(
                VersionModel {
                    major: num_val(s.subrange(0, e1)),
                    minor: num_val(s.subrange(b2, e2)),
                    patch: num_val(s.subrange(b3, e3)),
                    pre: tail.0,
                    build: tail.1,
                },
            ),
        }
    }
}

/// A parsed version's identifiers are all well formed.
pub proof fn lemma_parse_wf(s: Seq<char>)
    requires
        parse_spec(s) is Some,
    ensures
        wf_model(parse_spec(s)->0),
{
}

/// Parse a semantic version string, or nothing when it is malformed.
pub fn parse_version(s: &str) -> (r: Option<Version>)
    ensures
        match r {
            Some(v) => parse_spec(s@) == Some(v.model()) && v.wf(),
            None => parse_spec(s@) is None,
        },
{
    let n = s.unicode_len();
    let (major, e1) = match scan_num(s, 0) {
        Option::Some(p) => p,
        Option::None => {
            return None;
        },
    };
    if e1 == n || s.get_char(e1) != '.' {
        return None;
    }
    let (minor, e2) = match scan_num(s, e1 + 1) {
        Option::Some(p) => p,
        Option::None => {
            return None;
        },
    };
    if e2 == n || s.get_char(e2) != '.' {
        return None;
    }
    let (patch, e3) = match scan_num(s, e2 + 1) {
        Option::Some(p) => p,
        Option::None => {
            return None;
        },
    };
    if e3 == n {
        let v = Version { major, minor, patch, pre: Vec::new(), build: Vec::new() };
        proof {
            assert(idents_view(v.pre@) =~= Seq::<Seq<char>>::empty());
            assert(idents_view(v.build@) =~= Seq::<Seq<char>>::empty());
            lemma_parse_wf(s@);
        }
        return Some(v);
    }
    let next = s.get_char(e3);
    if next == '-' {
        let plus = scan::find_char(s, '+', e3 + 1);
        let pre_part = s.substring_char(e3 + 1, plus);
        let pre = match parse_idents(pre_part, true) {
            Option::Some(v) => v,
            Option::None => {
                return None;
            },
        };
        if plus == n {
            let v = Version { major, minor, patch, pre, build: Vec::new() };
            proof {
                assert(idents_view(v.build@) =~= Seq::<Seq<char>>::empty());
                lemma_parse_wf(s@);
            }
            Some(v)
        } else {
            let build_part = s.substring_char(plus + 1, n);
            let build = match parse_idents(build_part, false) {
                Option::Some(v) => v,
                Option::None => {
                    return None;
                },
            };
            let v = Version { major, minor, patch, pre, build };
            proof {
                lemma_parse_wf(s@);
            }
            Some(v)
        }
    } else if next == '+' {
        let build_part = s.substring_char(e3 + 1, n);
        let build = match parse_idents(build_part, false) {
            Option::Some(v) => v,
            Option::None => {
                return None;
            },
        };
        let v = Version { major, minor, patch, pre: Vec::new(), build };
        proof {
            assert(idents_view(v.pre@) =~= Seq::<Seq<char>>::empty());
            lemma_parse_wf(s@);
        }
        Some(v)
    } else {
        None
    }
}

/// Lexicographic order on character sequences by code point, a proper prefix
/// ordering first.
pub open spec fn lex_lt(a: Seq<char>, b: Seq<char>) -> bool
    decreases a.len(),
{
    if a.len() == 0 {
        b.len() > 0
    } else if b.len() == 0 {
        false
    } else if a[0] != b[0] {
        (a[0] as u32) < (b[0] as u32)
    } else {
        lex_lt(a.skip(1), b.skip(1))
    }
}

/// Identifier precedence: identifiers made of digits only compare by numeric
/// value and come before all others; the rest compare lexically in ASCII
/// order.
pub open spec fn ident_lt(a: Seq<char>, b: Seq<char>) -> bool {
    if all_digits(a) && all_digits(b) {
        num_val(a) < num_val(b)
    } else if all_digits(a) {
        true
    } else if all_digits(b) {
        false
    } else {
        lex_lt(a, b)
    }
}

/// Pre-release precedence over identifier sequences: identifier by
/// identifier, a sequence that runs out first ordering lower.
pub open spec fn pre_lt(a: Seq<Seq<char>>, b: Seq<Seq<char>>) -> bool
    decreases a.len(),
{
    if a.len() == 0 {
        b.len() > 0
    } else if b.len() == 0 {
        false
    } else if a[0] == b[0] {
        pre_lt(a.skip(1), b.skip(1))
    } else {
        ident_lt(a[0], b[0])
    }
}

/// Version precedence: by major, minor and patch numerically; for an equal
/// triple a version with pre-release identifiers precedes one without, and
/// two pre-releases compare by `pre_lt`. Build metadata never takes part.
pub open spec fn precedes(a: VersionModel, b: VersionModel) -> bool {
    if a.major != b.major {
        a.major < b.major
    } else if a.minor != b.minor {
        a.minor < b.minor
    } else if a.patch != b.patch {
        a.patch < b.patch
    } else if a.pre.len() > 0 && b.pre.len() == 0 {
        true
    } else if a.pre.len() == 0 {
        false
    } else {
        pre_lt(a.pre, b.pre)
    }
}

/// Ten to the power `n` (one for `n` at most zero).
pub open spec fn pow10(n: int) -> int
    decreases n,
{
    if n <= 0 {
        1
    } else {
        10 * pow10(n - 1)
    }
}

proof fn lemma_pow10_pos(n: int)
    ensures
        pow10(n) >= 1,
    decreases n,
{
    if n > 0 {
        lemma_pow10_pos(n - 1);
    }
}

proof fn lemma_pow10_mono(m: int, n: int)
    requires
        m <= n,
    ensures
        pow10(m) <= pow10(n),
    decreases n - m,
{
    if m < n {
        lemma_pow10_mono(m, n - 1);
        lemma_pow10_pos(n - 1);
    }
}

proof fn lemma_num_val_upper(s: Seq<char>)
    requires
        all_digits(s),
    ensures
        num_val(s) < pow10(s.len() as int),
    decreases s.len(),
{
    if s.len() > 0 {
        assert(all_digits(s.drop_last()));
        lemma_num_val_upper(s.drop_last());
        assert(chars::is_digit(s.last()));
    }
}

proof fn lemma_num_val_lower(s: Seq<char>)
    requires
        all_digits(s),
        s.len() >= 1,
        s[0] != '0',
    ensures
        num_val(s) >= pow10(s.len() - 1),
    decreases s.len(),
{
    if s.len() == 1 {
        assert(s.drop_last() =~= Seq::<char>::empty());
        assert(s.last() == s[0]);
        assert(chars::is_digit(s[0]));
        if chars::digit_value(s[0]) < 1 {
            assert(s[0] as u32 == '0' as u32);
            chars::lemma_char_code_injective(s[0], '0');
        }
        assert(chars::digit_value(s[0]) >= 1);
        assert(num_val(Seq::<char>::empty()) == 0);
        assert(num_val(s) == chars::digit_value(s[0]));
        assert(pow10(0) == 1);
    } else {
        assert(all_digits(s.drop_last()));
        assert(s.drop_last()[0] == s[0]);
        lemma_num_val_lower(s.drop_last());
        assert(chars::is_digit(s.last()));
    }
}

proof fn lemma_num_val_front(s: Seq<char>)
    requires
        s.len() >= 1,
    ensures
        num_val(s) == chars::digit_value(s[0]) * pow10(s.len() - 1) + num_val(s.skip(1)),
    decreases s.len(),
{
    if s.len() == 1 {
        assert(s.drop_last() =~= Seq::<char>::empty());
        assert(s.skip(1) =~= Seq::<char>::empty());
        assert(s.last() == s[0]);
    } else {
        let dl = s.drop_last();
        lemma_num_val_front(dl);
        assert(dl.skip(1) =~= s.skip(1).drop_last());
        assert(dl[0] == s[0]);
        assert(s.skip(1).last() == s.last());
        assert(s.skip(1).len() == s.len() - 1);
        let d0 = chars::digit_value(s[0]);
        let p = pow10(s.len() - 2);
        assert(num_val(s) == (d0 * p + num_val(s.skip(1).drop_last())) * 10 + chars::digit_value(
            s.last(),
        ));
        assert((d0 * p + num_val(s.skip(1).drop_last())) * 10 == d0 * p * 10 + num_val(
            s.skip(1).drop_last(),
        ) * 10) by (nonlinear_arith);
        assert(d0 * p * 10 == d0 * (10 * p)) by (nonlinear_arith);
        assert(pow10(s.len() - 1) == 10 * p);
    }
}

proof fn lemma_lex_total(a: Seq<char>, b: Seq<char>)
    ensures
        a == b || lex_lt(a, b) || lex_lt(b, a),
    decreases a.len(),
{
    if a.len() == 0 || b.len() == 0 {
        if a.len() == 0 && b.len() == 0 {
            assert(a =~= b);
        }
    } else if a[0] == b[0] {
        lemma_lex_total(a.skip(1), b.skip(1));
        if a.skip(1) == b.skip(1) {
            assert(a =~= seq![a[0]] + a.skip(1));
            assert(b =~= seq![b[0]] + b.skip(1));
        }
    } else {
        if a[0] as u32 == b[0] as u32 {
            chars::lemma_char_code_injective(a[0], b[0]);
        }
    }
}

proof fn lemma_same_len_val(a: Seq<char>, b: Seq<char>)
    requires
        all_digits(a),
        all_digits(b),
        a.len() == b.len(),
        lex_lt(a, b),
    ensures
        num_val(a) < num_val(b),
    decreases a.len(),
{
    if a[0] == b[0] {
        assert(all_digits(a.skip(1)));
        assert(all_digits(b.skip(1)));
        lemma_same_len_val(a.skip(1), b.skip(1));
        lemma_num_val_front(a);
        lemma_num_val_front(b);
    } else {
        let p = pow10(a.len() - 1);
        let da = chars::digit_value(a[0]);
        let db = chars::digit_value(b[0]);
        lemma_num_val_front(a);
        lemma_num_val_front(b);
        assert(all_digits(a.skip(1)));
        assert(all_digits(b.skip(1)));
        lemma_num_val_upper(a.skip(1));
        lemma_num_val_nonneg(b.skip(1));
        lemma_pow10_pos(a.len() - 1);
        if a[0] as u32 >= b[0] as u32 {
            if a[0] as u32 == b[0] as u32 {
                chars::lemma_char_code_injective(a[0], b[0]);
            }
            assert(false);
        }
        assert(da < db);
        assert(da * p + p == (da + 1) * p) by (nonlinear_arith);
        assert((da + 1) * p <= db * p) by (nonlinear_arith)
            requires
                da + 1 <= db,
                p >= 0,
        ;
    }
}

/// For digit strings without leading zeros, numeric order is length order
/// first and lexicographic order among equal lengths.
proof fn lemma_numeric_order(a: Seq<char>, b: Seq<char>)
    requires
        all_digits(a),
        all_digits(b),
        a.len() >= 1,
        b.len() >= 1,
        a.len() > 1 ==> a[0] != '0',
        b.len() > 1 ==> b[0] != '0',
    ensures
        num_val(a) < num_val(b) <==> (a.len() < b.len() || (a.len() == b.len() && lex_lt(a, b))),
{
    if a.len() < b.len() {
        lemma_num_val_upper(a);
        lemma_num_val_lower(b);
        lemma_pow10_mono(a.len() as int, b.len() - 1);
    } else if a.len() > b.len() {
        lemma_num_val_upper(b);
        lemma_num_val_lower(a);
        lemma_pow10_mono(b.len() as int, a.len() - 1);
    } else {
        lemma_lex_total(a, b);
        if lex_lt(a, b) {
            lemma_same_len_val(a, b);
        }
        if lex_lt(b, a) {
            lemma_same_len_val(b, a);
        }
    }
}

/// Whether every character of `s` is a digit.
fn str_all_digits(s: &str) -> (r: bool)
    ensures
        r == all_digits(s@),
{
    let n = s.unicode_len();
    let mut i: usize = 0;
    while i < n
        invariant
            i <= n,
            n == s@.len(),
            forall|j: int| 0 <= j < i ==> chars::is_digit(s@[j]),
        decreases n - i,
    {
        if !chars::digit(s.get_char(i)) {
            return false;
        }
        i += 1;
    }
    true
}

/// Whether `a` orders lexically before `b`, by code point.
fn lex_less(a: &str, b: &str) -> (r: bool)
    ensures
        r == lex_lt(a@, b@),
{
    let an = a.unicode_len();
    let bn = b.unicode_len();
    proof {
        assert(a@.skip(0) =~= a@);
        assert(b@.skip(0) =~= b@);
    }
    let mut i: usize = 0;
    loop
        invariant
            i <= an,
            i <= bn,
            an == a@.len(),
            bn == b@.len(),
            lex_lt(a@, b@) == lex_lt(a@.skip(i as int), b@.skip(i as int)),
        decreases an - i,
    {
        if i == an {
            proof {
                assert(a@.skip(i as int) =~= Seq::<char>::empty());
            }
            return i < bn;
        }
        if i == bn {
            proof {
                assert(b@.skip(i as int) =~= Seq::<char>::empty());
            }
            return false;
        }
        let ca = a.get_char(i);
        let cb = b.get_char(i);
        proof {
            assert(a@.skip(i as int)[0] == a@[i as int]);
            assert(b@.skip(i as int)[0] == b@[i as int]);
        }
        if ca != cb {
            return (ca as u32) < (cb as u32);
        }
        proof {
            assert(a@.skip(i as int).skip(1) =~= a@.skip(i + 1));
            assert(b@.skip(i as int).skip(1) =~= b@.skip(i + 1));
        }
        i += 1;
    }
}

/// Whether the identifier `a` precedes the identifier `b`.
fn ident_less(a: &str, b: &str) -> (r: bool)
    requires
        valid_ident(a@, true),
        valid_ident(b@, true),
    ensures
        r == ident_lt(a@, b@),
{
    let da = str_all_digits(a);
    let db = str_all_digits(b);
    if da && db {
        let an = a.unicode_len();
        let bn = b.unicode_len();
        proof {
            lemma_numeric_order(a@, b@);
        }
        if an != bn {
            an < bn
        } else {
            lex_less(a, b)
        }
    } else if da {
        true
    } else if db {
        false
    } else {
        lex_less(a, b)
    }
}

/// Whether the pre-release identifiers `a` precede the identifiers `b`.
fn pre_less(a: &Vec<String>, b: &Vec<String>) -> (r: bool)
    requires
        forall|k: int|
            0 <= k < idents_view(a@).len() ==> valid_ident(#[trigger] idents_view(a@)[k], true),
        forall|k: int|
            0 <= k < idents_view(b@).len() ==> valid_ident(#[trigger] idents_view(b@)[k], true),
    ensures
        r == pre_lt(idents_view(a@), idents_view(b@)),
{
    let ghost va = idents_view(a@);
    let ghost vb = idents_view(b@);
    let an = a.len();
    let bn = b.len();
    proof {
        assert(va.skip(0) =~= va);
        assert(vb.skip(0) =~= vb);
    }
    let mut i: usize = 0;
    loop
        invariant
            i <= an,
            i <= bn,
            an == va.len(),
            bn == vb.len(),
            va == idents_view(a@),
            vb == idents_view(b@),
            pre_lt(va, vb) == pre_lt(va.skip(i as int), vb.skip(i as int)),
            forall|k: int| 0 <= k < va.len() ==> valid_ident(#[trigger] va[k], true),
            forall|k: int| 0 <= k < vb.len() ==> valid_ident(#[trigger] vb[k], true),
        decreases an - i,
    {
        if i == an {
            proof {
                assert(va.skip(i as int) =~= Seq::<Seq<char>>::empty());
            }
            return i < bn;
        }
        if i == bn {
            proof {
                assert(vb.skip(i as int) =~= Seq::<Seq<char>>::empty());
            }
            return false;
        }
        proof {
            assert(va.skip(i as int)[0] == va[i as int]);
            assert(vb.skip(i as int)[0] == vb[i as int]);
            assert(va[i as int] == a@[i as int]@);
            assert(vb[i as int] == b@[i as int]@);
        }
        if !(a[i] == b[i]) {
            return ident_less(a[i].as_str(), b[i].as_str());
        }
        proof {
            assert(va.skip(i as int).skip(1) =~= va.skip(i + 1));
            assert(vb.skip(i as int).skip(1) =~= vb.skip(i + 1));
        }
        i += 1;
    }
}

/// Whether version `a` precedes version `b` under semantic-version
/// precedence, build metadata ignored.
pub fn version_precedes(a: &Version, b: &Version) -> (r: bool)
    requires
        a.wf(),
        b.wf(),
    ensures
        r == precedes(a.model(), b.model()),
{
    if a.major != b.major {
        return a.major < b.major;
    }
    if a.minor != b.minor {
        return a.minor < b.minor;
    }
    if a.patch != b.patch {
        return a.patch < b.patch;
    }
    let a_has_pre = a.pre.len() > 0;
    let b_has_pre = b.pre.len() > 0;
    if a_has_pre && !b_has_pre {
        return true;
    }
    if !a_has_pre {
        return false;
    }
    proof {
        assert(a.model().pre == idents_view(a.pre@));
        assert(b.model().pre == idents_view(b.pre@));
    }
    pre_less(&a.pre, &b.pre)
}

/// Decide whether `latest` counts as an update over `current`: both must
/// parse as semantic versions; a pre-release `latest` never counts unless
/// `include_prerelease` is set; otherwise `latest` counts exactly when it
/// strictly succeeds `current` under semantic-version precedence.
pub fn is_update_available(current: &str, latest: &str, include_prerelease: bool) -> (r: Result<
    Option<UpdateInfo>,
    Error,
>)
    ensures
        parse_spec(current@) is None ==> (r matches Err(e) && e matches Error::VersionError(m)
            && m@ == "invalid current version"@),
        parse_spec(current@) is Some && parse_spec(latest@) is None ==> (r matches Err(e)
            && e matches Error::VersionError(m) && m@ == "invalid latest version"@),
        parse_spec(current@) is Some && parse_spec(latest@) is Some ==> ({
            let c = parse_spec(current@)->0;
            let l = parse_spec(latest@)->0;
            if !include_prerelease && l.pre.len() > 0 {
                r matches Ok(o) && o is None
            } else if precedes(c, l) {
                r matches Ok(o) && o matches Some(u) && u.current@ == current@ && u.latest@
                    == latest@
            } else {
                r matches Ok(o) && o is None
            }
        }),
{
    let cur = match parse_version(current) {
        Option::Some(v) => v,
        Option::None => {
            return Err(Error::VersionError("invalid current version".to_owned()));
        },
    };
    let lat = match parse_version(latest) {
        Option::Some(v) => v,
        Option::None => {
            return Err(Error::VersionError("invalid latest version".to_owned()));
        },
    };
    if !include_prerelease && lat.pre.len() > 0 {
        return Ok(None);
    }
    if version_precedes(&cur, &lat) {
        Ok(Some(UpdateInfo { current: current.to_owned(), latest: latest.to_owned() }))
    } else {
        Ok(None)
    }
}

} // verus!
