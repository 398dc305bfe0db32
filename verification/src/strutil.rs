//! Character-level text utilities.
//!
//! All extraction logic works over sequences of characters.  The spec
//! functions here define trimming, splitting and searching mathematically;
//! the exec functions are proved against them.  Conversion between `str`
//! and `Vec<char>` and the Unicode uppercase test rely on std.

use vstd::prelude::*;
use vstd::string::StringExecFns;

verus! {

/// The Unicode `White_Space` code points, the set `str::trim` removes.
pub open spec fn is_space(c: char) -> bool {
    c == ' ' || c == '\t' || c == '\n' || c == '\r' || c == '\u{b}' || c == '\u{c}'
        || c == '\u{85}' || c == '\u{a0}' || c == '\u{1680}' || c == '\u{2000}'
        || c == '\u{2001}' || c == '\u{2002}' || c == '\u{2003}' || c == '\u{2004}'
        || c == '\u{2005}' || c == '\u{2006}' || c == '\u{2007}' || c == '\u{2008}'
        || c == '\u{2009}' || c == '\u{200a}' || c == '\u{2028}' || c == '\u{2029}'
        || c == '\u{202f}' || c == '\u{205f}' || c == '\u{3000}'
}

/// Whether `c` is an uppercase character outside the ASCII range.
/// The full Unicode table is not restated here; [`is_upper`] pins the
/// ASCII range exactly and leaves the rest to this name.
pub uninterp spec fn unicode_upper(c: char) -> bool;

/// Whether `char::is_uppercase` holds of `c`: exact on ASCII, where the
/// uppercase characters are exactly `'A'..='Z'`.
pub open spec fn is_upper(c: char) -> bool {
    if (c as int) < 0x80 {
        'A' <= c && c <= 'Z'
    } else {
        unicode_upper(c)
    }
}

/// Relies on `char::is_uppercase`: true exactly for characters with the
/// Unicode uppercase property, which within ASCII are `'A'..='Z'`.
#[verifier::external_body]
pub fn char_is_uppercase(c: char) -> (r: bool)
    ensures
        r == is_upper(c),
        (c as int) >= 0x80 ==> r == unicode_upper(c),
{
    c.is_uppercase()
}

/// Relies on `str::chars`: yields exactly the characters of the string,
/// in order.
#[verifier::external_body]
pub fn to_chars(s: &str) -> (r: Vec<char>)
    ensures
        r@ == s@,
{
    s.chars().collect()
}

/// Relies on `String::from_iter` over characters: builds the string of
/// exactly those characters, in order.
#[verifier::external_body]
pub fn from_chars(v: &Vec<char>) -> (r: String)
    ensures
        r@ == v@,
{
    v.iter().collect()
}

/// Relies on `str`'s `PartialEq`: two string slices are equal exactly
/// when their character sequences are.
#[verifier::external_body]
pub fn str_eq(a: &str, b: &str) -> (r: bool)
    ensures
        r == (a@ == b@),
{
    a == b
}

/// String equality against a literal, for kind tests.
pub fn str_eq_local(a: &String, b: &str) -> (r: bool)
    ensures
        r == (a@ == b@),
{
    str_eq(a.as_str(), b)
}

/// `p` is a prefix of `s`.
pub open spec fn spec_starts_with(s: Seq<char>, p: Seq<char>) -> bool {
    p.len() <= s.len() && (forall|j: int| 0 <= j < p.len() ==> s[j] == p[j])
}

/// `p` is a suffix of `s`.
pub open spec fn spec_ends_with(s: Seq<char>, p: Seq<char>) -> bool {
    p.len() <= s.len() && (forall|j: int|
        0 <= j < p.len() ==> s[s.len() - p.len() + j] == p[j])
}

pub fn chars_starts_with(s: &Vec<char>, p: &Vec<char>) -> (r: bool)
    ensures
        r == spec_starts_with(s@, p@),
{
    if p.len() > s.len() {
        return false;
    }
    let mut i: usize = 0;
    while i < p.len()
        invariant
            p@.len() <= s@.len(),
            i <= p@.len(),
            forall|j: int| 0 <= j < i ==> s@[j] == p@[j],
        decreases p@.len() - i,
    {
        if s[i] != p[i] {
            return false;
        }
        i = i + 1;
    }
    true
}

/// The two character lists hold the same text.
pub fn chars_eq(a: &Vec<char>, b: &Vec<char>) -> (r: bool)
    ensures
        r == (a@ == b@),
{
    if a.len() != b.len() {
        return false;
    }
    let mut i: usize = 0;
    while i < a.len()
        invariant
            a@.len() == b@.len(),
            i <= a@.len(),
            forall|j: int| 0 <= j < i ==> a@[j] == b@[j],
        decreases a@.len() - i,
    {
        if a[i] != b[i] {
            return false;
        }
        i = i + 1;
    }
    proof {
        assert(a@ =~= b@);
    }
    true
}

pub fn chars_ends_with(s: &Vec<char>, p: &Vec<char>) -> (r: bool)
    ensures
        r == spec_ends_with(s@, p@),
{
    if p.len() > s.len() {
        return false;
    }
    let off: usize = s.len() - p.len();
    let tail = chars_range(s, off, s.len());
    let r = chars_eq(&tail, p);
    proof {
        if r {
            assert forall|j: int| 0 <= j < p@.len() implies s@[s@.len() - p@.len() + j]
                == p@[j] by {
                assert(tail@[j] == s@[off + j]);
            }
        } else {
            if spec_ends_with(s@, p@) {
                assert forall|j: int| 0 <= j < tail@.len() implies tail@[j] == p@[j] by {
                    assert(tail@[j] == s@[off + j]);
                }
                assert(tail@ =~= p@);
            }
        }
    }
    r
}

pub fn str_starts_with(s: &str, p: &str) -> (r: bool)
    ensures
        r == spec_starts_with(s@, p@),
{
    let sv = to_chars(s);
    let pv = to_chars(p);
    chars_starts_with(&sv, &pv)
}

/// Copy of the characters `v[a..b]`.
pub fn chars_range(v: &Vec<char>, a: usize, b: usize) -> (r: Vec<char>)
    requires
        a <= b <= v@.len(),
    ensures
        r@ == v@.subrange(a as int, b as int),
{
    let mut r: Vec<char> = Vec::new();
    let mut i: usize = a;
    while i < b
        invariant
            a <= i <= b <= v@.len(),
            r@ == v@.subrange(a as int, i as int),
        decreases b - i,
    {
        r.push(v[i]);
        proof {
            assert(r@ =~= v@.subrange(a as int, i + 1 as int));
        }
        i = i + 1;
    }
    r
}

/// Number of leading characters of `s` that `is_space` accepts.
pub open spec fn leading_spaces(s: Seq<char>) -> int
    decreases s.len(),
{
    if s.len() > 0 && is_space(s[0]) {
        1 + leading_spaces(s.skip(1))
    } else {
        0
    }
}

/// Number of trailing characters of `s` that `is_space` accepts.
pub open spec fn trailing_spaces(s: Seq<char>) -> int
    decreases s.len(),
{
    if s.len() > 0 && is_space(s[s.len() - 1]) {
        1 + trailing_spaces(s.drop_last())
    } else {
        0
    }
}

/// `s` with leading whitespace removed.
pub open spec fn spec_trim_start(s: Seq<char>) -> Seq<char> {
    s.skip(leading_spaces(s))
}

/// `s` with trailing whitespace removed.
pub open spec fn spec_trim_end(s: Seq<char>) -> Seq<char> {
    s.take(s.len() - trailing_spaces(s))
}

/// `s` with leading and trailing whitespace removed, as `str::trim` does.
pub open spec fn spec_trim(s: Seq<char>) -> Seq<char> {
    spec_trim_end(spec_trim_start(s))
}

/// Helper: a run of `k` leading spaces followed by a non-space (or the end)
/// pins `leading_spaces` to `k`.
pub proof fn lemma_leading_spaces_exact(s: Seq<char>, k: int)
    requires
        0 <= k <= s.len(),
        forall|j: int| 0 <= j < k ==> is_space(s[j]),
        k < s.len() ==> !is_space(s[k]),
    ensures
        leading_spaces(s) == k,
    decreases k,
{
    if k == 0 {
        if s.len() > 0 && is_space(s[0]) {
            assert(false);
        }
    } else {
        assert(is_space(s[0]));
        lemma_leading_spaces_exact(s.skip(1), k - 1);
    }
}

pub proof fn lemma_trailing_spaces_exact(s: Seq<char>, k: int)
    requires
        0 <= k <= s.len(),
        forall|j: int| s.len() - k <= j < s.len() ==> is_space(s[j]),
        k < s.len() ==> !is_space(s[s.len() - k - 1]),
    ensures
        trailing_spaces(s) == k,
    decreases k,
{
    if k == 0 {
        if s.len() > 0 && is_space(s[s.len() - 1]) {
            assert(false);
        }
    } else {
        assert(is_space(s[s.len() - 1]));
        assert forall|j: int| s.drop_last().len() - (k - 1) <= j < s.drop_last().len()
            implies is_space(s.drop_last()[j]) by {
            assert(s.drop_last()[j] == s[j]);
        }
        if k - 1 < s.drop_last().len() {
            assert(s.drop_last()[s.drop_last().len() - (k - 1) - 1] == s[s.len() - k - 1]);
        }
        lemma_trailing_spaces_exact(s.drop_last(), k - 1);
    }
}

pub fn char_is_space(c: char) -> (r: bool)
    ensures
        r == is_space(c),
{
    c == ' ' || c == '\t' || c == '\n' || c == '\r' || c == '\u{b}' || c == '\u{c}'
        || c == '\u{85}' || c == '\u{a0}' || c == '\u{1680}' || c == '\u{2000}'
        || c == '\u{2001}' || c == '\u{2002}' || c == '\u{2003}' || c == '\u{2004}'
        || c == '\u{2005}' || c == '\u{2006}' || c == '\u{2007}' || c == '\u{2008}'
        || c == '\u{2009}' || c == '\u{200a}' || c == '\u{2028}' || c == '\u{2029}'
        || c == '\u{202f}' || c == '\u{205f}' || c == '\u{3000}'
}

pub fn trim_chars(v: &Vec<char>) -> (r: Vec<char>)
    ensures
        r@ == spec_trim(v@),
{
    let mut a: usize = 0;
    while a < v.len() && char_is_space(v[a])
        invariant
            a <= v@.len(),
            forall|j: int| 0 <= j < a ==> is_space(v@[j]),
        decreases v@.len() - a,
    {
        a = a + 1;
    }
    proof {
        lemma_leading_spaces_exact(v@, a as int);
    }
    let mut b: usize = v.len();
    while b > a && char_is_space(v[b - 1])
        invariant
            a <= b <= v@.len(),
            forall|j: int| b <= j < v@.len() ==> is_space(v@[j]),
            leading_spaces(v@) == a,
        decreases b,
    {
        b = b - 1;
    }
    let r = chars_range(v, a, b);
    proof {
        let t = v@.skip(a as int);
        if b > a {
            assert(!is_space(v@[b - 1]));
            assert forall|j: int| t.len() - (v@.len() - b) <= j < t.len() implies is_space(
                t[j],
            ) by {
                assert(t[j] == v@[j + a]);
            }
            assert(t[t.len() - (v@.len() - b) - 1] == v@[b - 1]);
            lemma_trailing_spaces_exact(t, v@.len() - b);
        } else {
            // everything from `a` on is whitespace, so the suffix is all spaces
            assert forall|j: int| 0 <= j < t.len() implies is_space(t[j]) by {
                assert(t[j] == v@[j + a]);
            }
            lemma_trailing_spaces_exact(t, t.len() as int);
        }
        assert(r@ =~= spec_trim(v@));
    }
    r
}

/// `s` with every leading and trailing occurrence of `c` removed,
/// as `str::trim_matches(c)` does.
pub open spec fn spec_trim_matches(s: Seq<char>, c: char) -> Seq<char>
    decreases s.len(),
{
    if s.len() > 0 && s[0] == c {
        spec_trim_matches(s.skip(1), c)
    } else if s.len() > 0 && s[s.len() - 1] == c {
        spec_trim_matches(s.drop_last(), c)
    } else {
        s
    }
}

pub fn trim_matches_char(v: &Vec<char>, c: char) -> (r: Vec<char>)
    ensures
        r@ == spec_trim_matches(v@, c),
{
    let mut a: usize = 0;
    let mut b: usize = v.len();
    proof {
        assert(v@.subrange(0, v@.len() as int) =~= v@);
    }
    while a < b && v[a] == c
        invariant
            a <= b <= v@.len(),
            b == v@.len(),
            spec_trim_matches(v@, c) == spec_trim_matches(v@.subrange(a as int, b as int), c),
        decreases b - a,
    {
        proof {
            let cur = v@.subrange(a as int, b as int);
            assert(cur[0] == c);
            assert(cur.skip(1) =~= v@.subrange(a + 1 as int, b as int));
        }
        a = a + 1;
    }
    while b > a && v[b - 1] == c
        invariant
            a <= b <= v@.len(),
            a < b ==> v@[a as int] != c,
            spec_trim_matches(v@, c) == spec_trim_matches(v@.subrange(a as int, b as int), c),
        decreases b,
    {
        proof {
            let cur = v@.subrange(a as int, b as int);
            assert(cur[0] == v@[a as int]);
            assert(cur[cur.len() - 1] == c);
            assert(cur.drop_last() =~= v@.subrange(a as int, b - 1 as int));
        }
        b = b - 1;
    }
    let r = chars_range(v, a, b);
    proof {
        let cur = v@.subrange(a as int, b as int);
        assert(spec_trim_matches(cur, c) == cur);
    }
    r
}

/// `s` with the suffix `p` removed as often as it occurs,
/// as `str::trim_end_matches(p)` does.  An empty `p` removes nothing.
pub open spec fn spec_trim_end_matches(s: Seq<char>, p: Seq<char>) -> Seq<char>
    decreases s.len(),
{
    if p.len() > 0 && spec_ends_with(s, p) {
        spec_trim_end_matches(s.take(s.len() - p.len()), p)
    } else {
        s
    }
}

/// `s` with the prefix `p` removed as often as it occurs,
/// as `str::trim_start_matches(p)` does.  An empty `p` removes nothing.
pub open spec fn spec_trim_start_matches(s: Seq<char>, p: Seq<char>) -> Seq<char>
    decreases s.len(),
{
    if p.len() > 0 && spec_starts_with(s, p) {
        spec_trim_start_matches(s.skip(p.len() as int), p)
    } else {
        s
    }
}

pub fn trim_end_matches_seq(v: &Vec<char>, p: &Vec<char>) -> (r: Vec<char>)
    ensures
        r@ == spec_trim_end_matches(v@, p@),
    decreases v@.len(),
{
    if p.len() > 0 && chars_ends_with(v, p) {
        let shorter = chars_range(v, 0, v.len() - p.len());
        proof {
            assert(shorter@ =~= v@.take(v@.len() - p@.len()));
        }
        trim_end_matches_seq(&shorter, p)
    } else {
        let mut r: Vec<char> = Vec::new();
        let mut i: usize = 0;
        while i < v.len()
            invariant
                i <= v@.len(),
                r@ == v@.subrange(0, i as int),
            decreases v@.len() - i,
        {
            r.push(v[i]);
            proof {
                assert(r@ =~= v@.subrange(0, i + 1 as int));
            }
            i = i + 1;
        }
        proof {
            assert(r@ =~= v@);
        }
        r
    }
}

pub fn trim_start_matches_seq(v: &Vec<char>, p: &Vec<char>) -> (r: Vec<char>)
    ensures
        r@ == spec_trim_start_matches(v@, p@),
    decreases v@.len(),
{
    if p.len() > 0 && chars_starts_with(v, p) {
        let shorter = chars_range(v, p.len(), v.len());
        proof {
            assert(shorter@ =~= v@.skip(p@.len() as int));
        }
        trim_start_matches_seq(&shorter, p)
    } else {
        chars_range(v, 0, v.len())
    }
}

/// `c` occurs in `s`.
pub open spec fn spec_contains_char(s: Seq<char>, c: char) -> bool {
    exists|j: int| 0 <= j < s.len() && s[j] == c
}

pub fn contains_char(v: &Vec<char>, c: char) -> (r: bool)
    ensures
        r == spec_contains_char(v@, c),
{
    let mut i: usize = 0;
    while i < v.len()
        invariant
            i <= v@.len(),
            forall|j: int| 0 <= j < i ==> v@[j] != c,
        decreases v@.len() - i,
    {
        if v[i] == c {
            return true;
        }
        i = i + 1;
    }
    false
}

/// `p` occurs in `s` as a contiguous subsequence.
pub open spec fn spec_contains_seq(s: Seq<char>, p: Seq<char>) -> bool {
    exists|i: int| 0 <= i <= s.len() - p.len() && spec_starts_with(s.skip(i), p)
}

pub fn contains_seq(v: &Vec<char>, p: &Vec<char>) -> (r: bool)
    ensures
        r == spec_contains_seq(v@, p@),
{
    if p.len() > v.len() {
        proof {
            assert forall|i: int| !(0 <= i <= v@.len() - p@.len()
                && spec_starts_with(v@.skip(i), p@)) by {}
        }
        return false;
    }
    let mut i: usize = 0;
    while i <= v.len() - p.len()
        invariant
            v@.len() <= usize::MAX,
            p@.len() <= v@.len(),
            i <= v@.len() - p@.len() + 1,
            forall|j: int| 0 <= j < i ==> !spec_starts_with(v@.skip(j), p@),
        decreases v@.len() - p@.len() + 1 - i,
    {
        let mut k: usize = 0;
        let mut all: bool = true;
        while k < p.len()
            invariant
                v@.len() <= usize::MAX,
                p@.len() <= v@.len(),
                i <= v@.len() - p@.len(),
                k <= p@.len(),
                all == (forall|j: int| 0 <= j < k ==> v@[i + j] == p@[j]),
            decreases p@.len() - k,
        {
            if v[i + k] != p[k] {
                all = false;
                proof {
                    assert(v@[i + k as int] != p@[k as int]);
                }
                k = p.len();
            } else {
                k = k + 1;
            }
        }
        if all {
            proof {
                assert forall|j: int| 0 <= j < p@.len() implies v@.skip(i as int)[j] == p@[j] by {
                    assert(v@.skip(i as int)[j] == v@[i + j]);
                }
                assert(spec_starts_with(v@.skip(i as int), p@));
            }
            return true;
        }
        proof {
            assert(exists|j: int| 0 <= j < p@.len() && v@[i + j] != p@[j]);
            let j = choose|j: int| 0 <= j < p@.len() && v@[i + j] != p@[j];
            assert(v@.skip(i as int)[j] == v@[i + j]);
            assert(!spec_starts_with(v@.skip(i as int), p@));
        }
        i = i + 1;
    }
    false
}

/// Every character of `s` is an uppercase character or an underscore:
/// the conservative constant-name heuristic.  Any lowercase character
/// anywhere disqualifies the identifier.
pub open spec fn spec_is_const_ident(s: Seq<char>) -> bool {
    forall|j: int| 0 <= j < s.len() ==> is_upper(s[j]) || s[j] == '_'
}

pub fn is_const_ident(v: &Vec<char>) -> (r: bool)
    ensures
        r == spec_is_const_ident(v@),
{
    let mut i: usize = 0;
    while i < v.len()
        invariant
            i <= v@.len(),
            forall|j: int| 0 <= j < i ==> is_upper(v@[j]) || v@[j] == '_',
        decreases v@.len() - i,
    {
        let ok = char_is_uppercase(v[i]);
        if !(ok || v[i] == '_') {
            return false;
        }
        i = i + 1;
    }
    true
}

/// Case-insensitive equality on the ASCII letters, exact elsewhere.
pub open spec fn char_eq_ci(a: char, b: char) -> bool {
    a == b || (0x41 <= a as u32 <= 0x5a && b as u32 == a as u32 + 0x20) || (0x41 <= b as u32
        <= 0x5a && a as u32 == b as u32 + 0x20)
}

/// The two texts are equal up to ASCII case.
pub open spec fn spec_eq_ignore_ascii_case(s: Seq<char>, t: Seq<char>) -> bool {
    s.len() == t.len() && (forall|j: int| 0 <= j < s.len() ==> char_eq_ci(s[j], t[j]))
}

pub fn eq_ignore_ascii_case(a: &Vec<char>, b: &Vec<char>) -> (r: bool)
    ensures
        r == spec_eq_ignore_ascii_case(a@, b@),
{
    broadcast use vstd::utf8::char_is_scalar;

    if a.len() != b.len() {
        return false;
    }
    let mut i: usize = 0;
    while i < a.len()
        invariant
            a@.len() == b@.len(),
            i <= a@.len(),
            forall|j: int| 0 <= j < i ==> char_eq_ci(a@[j], b@[j]),
        decreases a@.len() - i,
    {
        let x = a[i];
        let y = b[i];
        let xi = x as u32;
        let yi = y as u32;
        let eq = x == y || (0x41 <= xi && xi <= 0x5a && yi == xi + 0x20) || (0x41 <= yi && yi
            <= 0x5a && xi == yi + 0x20);
        if !eq {
            return false;
        }
        i = i + 1;
    }
    true
}

/// A list of characters is its own deep view.
pub broadcast proof fn lemma_chars_deep_view(v: Vec<char>)
    ensures
        #[trigger] v.deep_view() == v@,
{
    assert(v.deep_view() =~= v@);
}

/// `s` split at every newline; the separators are not kept.  Splitting the
/// empty text gives one empty segment, so the result is never empty.
pub open spec fn split_nl(s: Seq<char>) -> Seq<Seq<char>>
    decreases s.len(),
{
    if s.len() == 0 {
        seq![Seq::<char>::empty()]
    } else {
        let rest = split_nl(s.skip(1));
        if s[0] == '\n' {
            seq![Seq::<char>::empty()] + rest
        } else {
            seq![seq![s[0]] + rest[0]] + rest.skip(1)
        }
    }
}

pub proof fn lemma_split_nl_len(s: Seq<char>)
    ensures
        split_nl(s).len() >= 1,
    decreases s.len(),
{
    if s.len() > 0 {
        lemma_split_nl_len(s.skip(1));
    }
}

/// One trailing carriage return removed, if present.
pub open spec fn strip_cr(x: Seq<char>) -> Seq<char> {
    if x.len() > 0 && x[x.len() - 1] == '\r' {
        x.drop_last()
    } else {
        x
    }
}

/// The lines of `s`, as `str::lines` yields them: split at `\n`, a `\r`
/// directly before a split point removed, and no empty segment after a
/// final newline.
pub open spec fn spec_lines(s: Seq<char>) -> Seq<Seq<char>> {
    if s.len() == 0 {
        Seq::empty()
    } else {
        let body = if s[s.len() - 1] == '\n' {
            s.drop_last()
        } else {
            s
        };
        let g = split_nl(body);
        let strip_last = s[s.len() - 1] == '\n';
        Seq::new(
            g.len(),
            |k: int|
                if k < g.len() - 1 || strip_last {
                    strip_cr(g[k])
                } else {
                    g[k]
                },
        )
    }
}

/// The texts joined with single newlines between them.
pub open spec fn spec_join_lines(ps: Seq<Seq<char>>) -> Seq<char>
    decreases ps.len(),
{
    if ps.len() == 0 {
        Seq::empty()
    } else if ps.len() == 1 {
        ps[0]
    } else {
        ps[0] + seq!['\n'] + spec_join_lines(ps.skip(1))
    }
}

pub proof fn lemma_join_lines_push(ps: Seq<Seq<char>>, x: Seq<char>)
    ensures
        spec_join_lines(ps.push(x)) == if ps.len() == 0 {
            x
        } else {
            spec_join_lines(ps) + seq!['\n'] + x
        },
    decreases ps.len(),
{
    if ps.len() == 0 {
        assert(ps.push(x)[0] =~= x);
        assert(ps.push(x).len() == 1);
    } else {
        lemma_join_lines_push(ps.skip(1), x);
        assert(ps.push(x).skip(1) =~= ps.skip(1).push(x));
        assert(ps.push(x)[0] == ps[0]);
        if ps.len() == 1 {
            assert(spec_join_lines(ps.push(x)) =~= ps[0] + seq!['\n'] + x);
            assert(spec_join_lines(ps) + seq!['\n'] + x =~= ps[0] + seq!['\n'] + x);
        } else {
            assert(spec_join_lines(ps) + seq!['\n'] + x =~= ps[0] + seq!['\n'] + (
            spec_join_lines(ps.skip(1)) + seq!['\n'] + x));
        }
    }
}

/// The head segment of a split extended to the left with `c`.
pub open spec fn prepend_first(c: Seq<char>, g: Seq<Seq<char>>) -> Seq<Seq<char>> {
    seq![c + g[0]] + g.skip(1)
}

/// Split of `v[0..n]` at newlines.
pub fn split_nl_exec(v: &Vec<char>, n: usize) -> (r: Vec<Vec<char>>)
    requires
        n <= v@.len(),
    ensures
        r.deep_view() == split_nl(v@.take(n as int)),
{
    broadcast use lemma_chars_deep_view;

    let mut segs: Vec<Vec<char>> = Vec::new();
    let mut cur: Vec<char> = Vec::new();
    let mut i: usize = 0;
    proof {
        lemma_split_nl_len(v@.subrange(0, n as int));
        assert(v@.subrange(0, n as int) =~= v@.take(n as int));
        assert(prepend_first(cur@, split_nl(v@.subrange(0, n as int))) =~~= split_nl(
            v@.take(n as int),
        ));
    }
    while i < n
        invariant
            i <= n <= v@.len(),
            segs.deep_view() + prepend_first(cur@, split_nl(v@.subrange(i as int, n as int)))
                =~~= split_nl(v@.take(n as int)),
        decreases n - i,
    {
        let ghost pre = v@.subrange(i as int, n as int);
        let ghost post = v@.subrange(i + 1 as int, n as int);
        proof {
            assert(pre.len() > 0);
            assert(pre[0] == v@[i as int]);
            assert(pre.skip(1) =~= post);
            lemma_split_nl_len(post);
        }
        let c = v[i];
        if c == '\n' {
            let ghost old_segs = segs.deep_view();
            let ghost old_cur = cur@;
            let done = cur;
            cur = Vec::new();
            segs.push(done);
            proof {
                // split of the rest starts with an empty segment
                assert(split_nl(pre) =~~= seq![Seq::<char>::empty()] + split_nl(post));
                assert(prepend_first(old_cur, split_nl(pre)) =~~= seq![old_cur] + split_nl(
                    post,
                ));
                assert(prepend_first(Seq::<char>::empty(), split_nl(post)) =~~= split_nl(post));
                assert(segs.deep_view() =~~= old_segs.push(old_cur));
                assert(segs.deep_view() + prepend_first(cur@, split_nl(post)) =~~= old_segs + (
                seq![old_cur] + split_nl(post)));
            }
        } else {
            let ghost old_cur = cur@;
            cur.push(c);
            proof {
                let g = split_nl(post);
                assert(split_nl(pre) =~~= prepend_first(seq![v@[i as int]], g));
                assert(prepend_first(old_cur, prepend_first(seq![v@[i as int]], g)) =~~= (
                prepend_first(cur@, g)));
            }
        }
        i = i + 1;
    }
    let ghost old_segs = segs.deep_view();
    let ghost last_cur = cur@;
    segs.push(cur);
    proof {
        let tail = v@.subrange(n as int, n as int);
        assert(tail =~= Seq::<char>::empty());
        assert(split_nl(tail) =~~= seq![Seq::<char>::empty()]);
        assert(prepend_first(last_cur, split_nl(tail)) =~~= seq![last_cur]);
        assert(segs.deep_view() =~~= old_segs.push(last_cur));
        assert(segs.deep_view() =~~= old_segs + seq![last_cur]);
    }
    segs
}

/// One trailing carriage return removed, if present.
pub fn strip_cr_exec(v: &Vec<char>) -> (r: Vec<char>)
    ensures
        r@ == strip_cr(v@),
{
    if v.len() > 0 && v[v.len() - 1] == '\r' {
        let r = chars_range(v, 0, v.len() - 1);
        proof {
            assert(r@ =~= v@.drop_last());
        }
        r
    } else {
        chars_range(v, 0, v.len())
    }
}

/// The lines of `v`, as `str::lines` yields them.
pub fn split_lines(v: &Vec<char>) -> (r: Vec<Vec<char>>)
    ensures
        r.deep_view() == spec_lines(v@),
{
    broadcast use lemma_chars_deep_view;

    if v.len() == 0 {
        let r: Vec<Vec<char>> = Vec::new();
        proof {
            assert(r.deep_view() =~= spec_lines(v@));
        }
        return r;
    }
    let strip_last = v[v.len() - 1] == '\n';
    let n: usize = if strip_last {
        v.len() - 1
    } else {
        v.len()
    };
    let g = split_nl_exec(v, n);
    proof {
        if strip_last {
            assert(v@.take(n as int) =~= v@.drop_last());
        } else {
            assert(v@.take(n as int) =~= v@);
        }
    }
    let mut r: Vec<Vec<char>> = Vec::new();
    let mut k: usize = 0;
    while k < g.len()
        invariant
            k <= g@.len(),
            g.deep_view().len() == g@.len(),
            g.deep_view() == split_nl(if strip_last {
                v@.drop_last()
            } else {
                v@
            }),
            v@.len() > 0,
            strip_last == (v@[v@.len() - 1] == '\n'),
            spec_lines(v@).len() == g@.len(),
            r@.len() == k,
            r.deep_view() == spec_lines(v@).take(k as int),
        decreases g@.len() - k,
    {
        let do_strip = k < g.len() - 1 || strip_last;
        let gk = &g[k];
        let s: Vec<char> = if do_strip {
            strip_cr_exec(gk)
        } else {
            let copy = chars_range(gk, 0, gk.len());
            proof {
                assert(copy@ =~= g@[k as int]@);
            }
            copy
        };
        let ghost rv0 = r@;
        let ghost dv0 = r.deep_view();
        r.push(s);
        proof {
            assert(g.deep_view()[k as int] == g@[k as int].deep_view());
            assert(g@[k as int].deep_view() == g@[k as int]@);
            assert(spec_lines(v@)[k as int] == if do_strip {
                strip_cr(g.deep_view()[k as int])
            } else {
                g.deep_view()[k as int]
            });
            assert(s@ == spec_lines(v@)[k as int]);
            assert(r@ == rv0.push(s));
            assert forall|j: int| 0 <= j < k + 1 implies r.deep_view()[j] == spec_lines(
                v@,
            ).take(k + 1 as int)[j] by {
                assert(r.deep_view()[j] == r@[j].deep_view());
                if j < k {
                    assert(r@[j] == rv0[j]);
                    assert(dv0[j] == rv0[j].deep_view());
                    assert(dv0[j] == spec_lines(v@).take(k as int)[j]);
                } else {
                    assert(r@[j] == s);
                    assert(s.deep_view() == s@);
                }
            }
            assert(r.deep_view() =~= spec_lines(v@).take(k + 1 as int));
        }
        k = k + 1;
    }
    proof {
        assert(spec_lines(v@).take(g@.len() as int) =~~= spec_lines(v@));
    }
    r
}

/// The texts joined with single newlines between them.
pub fn join_lines_exec(parts: &Vec<Vec<char>>) -> (r: Vec<char>)
    ensures
        r@ == spec_join_lines(parts.deep_view()),
{
    broadcast use lemma_chars_deep_view;

    let mut r: Vec<char> = Vec::new();
    let mut k: usize = 0;
    while k < parts.len()
        invariant
            k <= parts@.len(),
            parts.deep_view().len() == parts@.len(),
            r@ == spec_join_lines(parts.deep_view().take(k as int)),
        decreases parts@.len() - k,
    {
        let ghost pre = parts.deep_view().take(k as int);
        if k > 0 {
            r.push('\n');
        }
        let part = &parts[k];
        let mut j: usize = 0;
        let ghost base = r@;
        while j < part.len()
            invariant
                j <= part@.len(),
                r@ == base + part@.take(j as int),
            decreases part@.len() - j,
        {
            r.push(part[j]);
            proof {
                assert(base + part@.take(j + 1 as int) =~= (base + part@.take(j as int)).push(
                    part@[j as int],
                ));
            }
            j = j + 1;
        }
        proof {
            assert(part@.take(part@.len() as int) =~= part@);
            assert(parts.deep_view()[k as int] == parts@[k as int].deep_view());
            lemma_join_lines_push(pre, parts.deep_view()[k as int]);
            assert(parts.deep_view().take(k + 1 as int) =~= pre.push(
                parts.deep_view()[k as int],
            ));
            if k == 0 {
                assert(r@ =~= spec_join_lines(parts.deep_view().take(k + 1 as int)));
            } else {
                assert(r@ =~= spec_join_lines(pre) + seq!['\n'] + parts.deep_view()[k as int]);
            }
        }
        k = k + 1;
    }
    proof {
        assert(parts.deep_view().take(parts@.len() as int) =~= parts.deep_view());
    }
    r
}

/// The texts joined with `sep` between them.
pub open spec fn spec_join_sep(ps: Seq<Seq<char>>, sep: Seq<char>) -> Seq<char>
    decreases ps.len(),
{
    if ps.len() == 0 {
        Seq::empty()
    } else if ps.len() == 1 {
        ps[0]
    } else {
        ps[0] + sep + spec_join_sep(ps.skip(1), sep)
    }
}

pub proof fn lemma_join_sep_push(ps: Seq<Seq<char>>, sep: Seq<char>, x: Seq<char>)
    ensures
        spec_join_sep(ps.push(x), sep) == if ps.len() == 0 {
            x
        } else {
            spec_join_sep(ps, sep) + sep + x
        },
    decreases ps.len(),
{
    if ps.len() == 0 {
        assert(ps.push(x)[0] =~= x);
        assert(ps.push(x).len() == 1);
    } else {
        lemma_join_sep_push(ps.skip(1), sep, x);
        assert(ps.push(x).skip(1) =~= ps.skip(1).push(x));
        assert(ps.push(x)[0] == ps[0]);
        if ps.len() == 1 {
            assert(spec_join_sep(ps.push(x), sep) =~= ps[0] + sep + x);
            assert(spec_join_sep(ps, sep) + sep + x =~= ps[0] + sep + x);
        } else {
            assert(spec_join_sep(ps, sep) + sep + x =~= ps[0] + sep + (spec_join_sep(
                ps.skip(1),
                sep,
            ) + sep + x));
        }
    }
}

/// The strings joined with `sep` between them.
pub fn join_sep_exec(parts: &Vec<String>, sep: &str) -> (r: String)
    ensures
        r@ == spec_join_sep(parts.deep_view(), sep@),
{
    let mut r = String::new();
    let mut k: usize = 0;
    while k < parts.len()
        invariant
            k <= parts@.len(),
            parts.deep_view().len() == parts@.len(),
            r@ == spec_join_sep(parts.deep_view().take(k as int), sep@),
        decreases parts@.len() - k,
    {
        let ghost pre = parts.deep_view().take(k as int);
        if k > 0 {
            r.append(sep);
        }
        r.append(parts[k].as_str());
        proof {
            assert(parts.deep_view()[k as int] == parts@[k as int]@);
            lemma_join_sep_push(pre, sep@, parts.deep_view()[k as int]);
            assert(parts.deep_view().take(k + 1 as int) =~= pre.push(
                parts.deep_view()[k as int],
            ));
        }
        k = k + 1;
    }
    proof {
        assert(parts.deep_view().take(parts@.len() as int) =~= parts.deep_view());
    }
    r
}

/// Sequence concatenation is associative.
pub proof fn seq_assoc<A>(x: Seq<A>, y: Seq<A>, z: Seq<A>)
    ensures
        (x + y) + z == x + (y + z),
{
    assert((x + y) + z =~= x + (y + z));
}

/// Duplicate of an optional string.
pub fn clone_opt_string(o: &Option<String>) -> (r: Option<String>)
    ensures
        r.deep_view() == o.deep_view(),
{
    match o {
        Some(s) => Some(s.clone()),
        None => None,
    }
}

} // verus!
