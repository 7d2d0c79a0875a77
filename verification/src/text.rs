//! Verified character-level text utilities: whitespace trimming, prefix and
//! suffix tests, splitting on a separator, line splitting, and word counting.

use vstd::prelude::*;
use vstd::string::StrSliceExecFns;

verus! {

/// The characters the Unicode `White_Space` property covers.
pub open spec fn is_space_char(c: char) -> bool {
    c == ' ' || c == '\t' || c == '\n' || c == '\u{b}' || c == '\u{c}' || c == '\r' || c == '\u{85}'
        || c == '\u{a0}' || c == '\u{1680}' || c == '\u{2000}' || c == '\u{2001}' || c == '\u{2002}'
        || c == '\u{2003}' || c == '\u{2004}' || c == '\u{2005}' || c == '\u{2006}' || c
        == '\u{2007}' || c == '\u{2008}' || c == '\u{2009}' || c == '\u{200a}' || c == '\u{2028}'
        || c == '\u{2029}' || c == '\u{202f}' || c == '\u{205f}' || c == '\u{3000}'
}

pub fn is_space(c: char) -> (r: bool)
    ensures
        r == is_space_char(c),
{
    c == ' ' || c == '\t' || c == '\n' || c == '\u{b}' || c == '\u{c}' || c == '\r' || c == '\u{85}'
        || c == '\u{a0}' || c == '\u{1680}' || c == '\u{2000}' || c == '\u{2001}' || c == '\u{2002}'
        || c == '\u{2003}' || c == '\u{2004}' || c == '\u{2005}' || c == '\u{2006}' || c
        == '\u{2007}' || c == '\u{2008}' || c == '\u{2009}' || c == '\u{200a}' || c == '\u{2028}'
        || c == '\u{2029}' || c == '\u{202f}' || c == '\u{205f}' || c == '\u{3000}'
}

/// Position of the first non-whitespace character at or after `i`; `s.len()`
/// if all of the rest is whitespace.
pub open spec fn first_non_space(s: Seq<char>, i: int) -> int
    recommends
        0 <= i <= s.len(),
    decreases s.len() - i,
    when 0 <= i <= s.len()
{
    if i >= s.len() {
        s.len() as int
    } else if is_space_char(s[i]) {
        first_non_space(s, i + 1)
    } else {
        i
    }
}

pub proof fn lemma_first_non_space_bounds(s: Seq<char>, i: int)
    requires
        0 <= i <= s.len(),
    ensures
        i <= first_non_space(s, i) <= s.len(),
        forall|j: int| i <= j < first_non_space(s, i) ==> is_space_char(s[j]),
        first_non_space(s, i) < s.len() ==> !is_space_char(s[first_non_space(s, i)]),
    decreases s.len() - i,
{
    if i < s.len() && is_space_char(s[i]) {
        lemma_first_non_space_bounds(s, i + 1);
    }
}

pub proof fn lemma_first_non_space_is(s: Seq<char>, i: int, j: int)
    requires
        0 <= i <= j <= s.len(),
        forall|m: int| i <= m < j ==> is_space_char(s[m]),
        j == s.len() || !is_space_char(s[j]),
    ensures
        first_non_space(s, i) == j,
    decreases j - i,
{
    if i < j {
        lemma_first_non_space_is(s, i + 1, j);
    }
}

/// End of `s` once trailing whitespace before `j` is dropped.
pub open spec fn trim_end_idx(s: Seq<char>, j: int) -> int
    recommends
        0 <= j <= s.len(),
    decreases j,
    when 0 <= j <= s.len()
{
    if j <= 0 {
        0
    } else if is_space_char(s[j - 1]) {
        trim_end_idx(s, j - 1)
    } else {
        j
    }
}

pub proof fn lemma_trim_end_idx_bounds(s: Seq<char>, j: int)
    requires
        0 <= j <= s.len(),
    ensures
        0 <= trim_end_idx(s, j) <= j,
        forall|m: int| trim_end_idx(s, j) <= m < j ==> is_space_char(s[m]),
        trim_end_idx(s, j) > 0 ==> !is_space_char(s[trim_end_idx(s, j) - 1]),
    decreases j,
{
    if j > 0 && is_space_char(s[j - 1]) {
        lemma_trim_end_idx_bounds(s, j - 1);
    }
}

pub proof fn lemma_trim_end_idx_is(s: Seq<char>, j: int, b: int)
    requires
        0 <= b <= j <= s.len(),
        forall|m: int| b <= m < j ==> is_space_char(s[m]),
        b == 0 || !is_space_char(s[b - 1]),
    ensures
        trim_end_idx(s, j) == b,
    decreases j - b,
{
    if b < j {
        lemma_trim_end_idx_is(s, j - 1, b);
    }
}

/// `s` with leading and trailing whitespace removed.
pub open spec fn spec_trim(s: Seq<char>) -> Seq<char> {
    let a = first_non_space(s, 0);
    let b = trim_end_idx(s, s.len() as int);
    if a <= b {
        s.subrange(a, b)
    } else {
        Seq::empty()
    }
}

/// Removes leading and trailing whitespace.
#[verifier::loop_isolation(false)]
pub fn trim_str(s: &str) -> (r: String)
    ensures
        r@ == spec_trim(s@),
{
    let len = s.unicode_len();
    let mut a: usize = 0;
    while a < len && is_space(s.get_char(a))
        invariant
            0 <= a <= len,
            forall|j: int| 0 <= j < a ==> is_space_char(s@[j]),
        decreases len - a,
    {
        a = a + 1;
    }
    proof {
        lemma_first_non_space_is(s@, 0, a as int);
    }
    let mut b: usize = len;
    while b > a && is_space(s.get_char(b - 1))
        invariant
            a <= b <= len,
            forall|j: int| b <= j < len ==> is_space_char(s@[j]),
        decreases b,
    {
        b = b - 1;
    }
    if a >= b {
        proof {
            assert(a == b);
            if a < len {
                assert(is_space_char(s@[a as int]));
                assert(first_non_space(s@, 0) == a);
                assert(false);
            }
            assert forall|m: int| 0 <= m < len implies is_space_char(s@[m]) by {}
            lemma_trim_end_idx_is(s@, len as int, 0);
        }
        String::new()
    } else {
        proof {
            assert(!is_space_char(s@[b - 1]));
            lemma_trim_end_idx_is(s@, len as int, b as int);
        }
        s.substring_char(a, b).to_owned()
    }
}

/// Does `s` start with `p`?
pub open spec fn spec_starts_with(s: Seq<char>, p: Seq<char>) -> bool {
    p.len() <= s.len() && s.subrange(0, p.len() as int) == p
}

#[verifier::loop_isolation(false)]
pub fn str_starts_with(s: &str, p: &str) -> (r: bool)
    ensures
        r == spec_starts_with(s@, p@),
{
    let slen = s.unicode_len();
    let plen = p.unicode_len();
    if plen > slen {
        return false;
    }
    let mut i: usize = 0;
    while i < plen
        invariant
            0 <= i <= plen <= slen,
            forall|j: int| 0 <= j < i ==> s@[j] == p@[j],
        decreases plen - i,
    {
        if s.get_char(i) != p.get_char(i) {
            assert(s@.subrange(0, p@.len() as int)[i as int] != p@[i as int]);
            return false;
        }
        i = i + 1;
    }
    assert(s@.subrange(0, p@.len() as int) =~= p@);
    true
}

/// Does `s` end with `p`?
pub open spec fn spec_ends_with(s: Seq<char>, p: Seq<char>) -> bool {
    p.len() <= s.len() && s.subrange(s.len() - p.len(), s.len() as int) == p
}

#[verifier::loop_isolation(false)]
pub fn str_ends_with(s: &str, p: &str) -> (r: bool)
    ensures
        r == spec_ends_with(s@, p@),
{
    let slen = s.unicode_len();
    let plen = p.unicode_len();
    if plen > slen {
        return false;
    }
    let base = slen - plen;
    let mut i: usize = 0;
    while i < plen
        invariant
            0 <= i <= plen <= slen,
            base == slen - plen,
            forall|j: int| 0 <= j < i ==> s@[base + j] == p@[j],
        decreases plen - i,
    {
        if s.get_char(base + i) != p.get_char(i) {
            assert(s@.subrange(s@.len() - p@.len(), s@.len() as int)[i as int] != p@[i as int]);
            return false;
        }
        i = i + 1;
    }
    assert(s@.subrange(s@.len() - p@.len(), s@.len() as int) =~= p@);
    true
}

/// Position of the first occurrence of `sep` at or after `i`; `s.len()` if
/// none.
pub open spec fn find_char(s: Seq<char>, sep: char, i: int) -> int
    recommends
        0 <= i <= s.len(),
    decreases s.len() - i,
    when 0 <= i <= s.len()
{
    if i >= s.len() {
        s.len() as int
    } else if s[i] == sep {
        i
    } else {
        find_char(s, sep, i + 1)
    }
}

pub proof fn lemma_find_char_bounds(s: Seq<char>, sep: char, i: int)
    requires
        0 <= i <= s.len(),
    ensures
        i <= find_char(s, sep, i) <= s.len(),
        forall|j: int| i <= j < find_char(s, sep, i) ==> s[j] != sep,
        find_char(s, sep, i) < s.len() ==> s[find_char(s, sep, i)] == sep,
    decreases s.len() - i,
{
    if i < s.len() && s[i] != sep {
        lemma_find_char_bounds(s, sep, i + 1);
    }
}

pub proof fn lemma_find_char_is(s: Seq<char>, sep: char, i: int, j: int)
    requires
        0 <= i <= j <= s.len(),
        forall|m: int| i <= m < j ==> s[m] != sep,
        j == s.len() || s[j] == sep,
    ensures
        find_char(s, sep, i) == j,
    decreases j - i,
{
    if i < j {
        lemma_find_char_is(s, sep, i + 1, j);
    }
}

/// Finds the first occurrence of `sep` at or after `start`.
#[verifier::loop_isolation(false)]
pub fn find_char_from(s: &str, sep: char, start: usize) -> (j: usize)
    requires
        start <= s@.len(),
    ensures
        j == find_char(s@, sep, start as int),
{
    let len = s.unicode_len();
    let mut j: usize = start;
    while j < len && s.get_char(j) != sep
        invariant
            start <= j <= len,
            forall|m: int| start <= m < j ==> s@[m] != sep,
        decreases len - j,
    {
        j = j + 1;
    }
    proof {
        lemma_find_char_is(s@, sep, start as int, j as int);
    }
    j
}

/// The pieces of `s` between occurrences of `sep`, from position `i` on,
/// empty pieces kept. Always at least one piece.
pub open spec fn spec_split_from(s: Seq<char>, sep: char, i: int) -> Seq<Seq<char>>
    recommends
        0 <= i <= s.len(),
    decreases s.len() - i,
    when 0 <= i <= s.len()
    via spec_split_from_decreases
{
    let j = find_char(s, sep, i);
    if j == s.len() {
        seq![s.subrange(i, s.len() as int)]
    } else {
        seq![s.subrange(i, j)] + spec_split_from(s, sep, j + 1)
    }
}

#[via_fn]
proof fn spec_split_from_decreases(s: Seq<char>, sep: char, i: int) {
    lemma_find_char_bounds(s, sep, i);
}

/// The pieces of `s` between occurrences of `sep`, empty pieces kept.
pub open spec fn spec_split(s: Seq<char>, sep: char) -> Seq<Seq<char>> {
    spec_split_from(s, sep, 0)
}

/// The views of a vector of strings.
pub open spec fn strings_view(v: Seq<String>) -> Seq<Seq<char>> {
    v.map_values(|x: String| x@)
}

/// Splits `s` at every occurrence of `sep`, keeping empty pieces.
#[verifier::loop_isolation(false)]
pub fn split_str(s: &str, sep: char) -> (r: Vec<String>)
    ensures
        strings_view(r@) == spec_split(s@, sep),
{
    let len = s.unicode_len();
    let mut out: Vec<String> = Vec::new();
    let mut cur: usize = 0;
    let mut i: usize = 0;
    while i < len
        invariant
            0 <= cur <= i <= len,
            forall|j: int| cur <= j < i ==> s@[j] != sep,
            spec_split(s@, sep) == strings_view(out@) + spec_split_from(s@, sep, cur as int),
        decreases len - i,
    {
        if s.get_char(i) == sep {
            proof {
                lemma_find_char_is(s@, sep, cur as int, i as int);
            }
            let piece = s.substring_char(cur, i).to_owned();
            let ghost prev = strings_view(out@);
            out.push(piece);
            proof {
                assert(strings_view(out@) =~= prev + seq![s@.subrange(cur as int, i as int)]);
                assert(spec_split_from(s@, sep, cur as int) =~= seq![
                    s@.subrange(cur as int, i as int),
                ] + spec_split_from(s@, sep, i as int + 1));
                assert(prev + (seq![s@.subrange(cur as int, i as int)] + spec_split_from(
                    s@,
                    sep,
                    i as int + 1,
                )) =~= strings_view(out@) + spec_split_from(s@, sep, i as int + 1));
            }
            cur = i + 1;
        }
        i = i + 1;
    }
    proof {
        lemma_find_char_is(s@, sep, cur as int, len as int);
    }
    let piece = s.substring_char(cur, len).to_owned();
    let ghost prev = strings_view(out@);
    out.push(piece);
    proof {
        assert(strings_view(out@) =~= prev + seq![s@.subrange(cur as int, len as int)]);
        assert(spec_split_from(s@, sep, cur as int) =~= seq![
            s@.subrange(cur as int, len as int),
        ]);
    }
    out
}

/// A line with one trailing carriage return removed, as `str::lines` does.
pub open spec fn strip_cr(l: Seq<char>) -> Seq<char> {
    if l.len() > 0 && l[l.len() - 1] == '\r' {
        l.drop_last()
    } else {
        l
    }
}

/// The lines of `s`: pieces between newlines, one trailing carriage return
/// removed from each, and no final empty piece for a trailing newline.
pub open spec fn spec_lines(s: Seq<char>) -> Seq<Seq<char>> {
    if s.len() == 0 {
        Seq::empty()
    } else {
        let ps = spec_split(s, '\n');
        let kept = if s[s.len() - 1] == '\n' {
            ps.drop_last()
        } else {
            ps
        };
        kept.map_values(|l: Seq<char>| strip_cr(l))
    }
}

/// Splits `s` into lines as `str::lines` does.
#[verifier::loop_isolation(false)]
pub fn lines_of(s: &str) -> (r: Vec<String>)
    ensures
        strings_view(r@) == spec_lines(s@),
{
    let len = s.unicode_len();
    if len == 0 {
        let r: Vec<String> = Vec::new();
        proof {
            assert(strings_view(r@) =~= spec_lines(s@));
        }
        return r;
    }
    let mut pieces = split_str(s, '\n');
    let ghost ps = spec_split(s@, '\n');
    if s.get_char(len - 1) == '\n' {
        proof {
            assert(ps.len() > 0);
        }
        let _ = pieces.pop();
        proof {
            assert(strings_view(pieces@) =~= ps.drop_last());
        }
    }
    let ghost kept = strings_view(pieces@);
    let mut out: Vec<String> = Vec::new();
    let mut i: usize = 0;
    while i < pieces.len()
        invariant
            0 <= i <= pieces@.len(),
            kept == strings_view(pieces@),
            strings_view(out@) =~= kept.subrange(0, i as int).map_values(
                |l: Seq<char>| strip_cr(l),
            ),
        decreases pieces@.len() - i,
    {
        let piece = &pieces[i];
        let plen = piece.as_str().unicode_len();
        let ghost prev = strings_view(out@);
        if plen > 0 && piece.as_str().get_char(plen - 1) == '\r' {
            let clipped = piece.as_str().substring_char(0, plen - 1).to_owned();
            proof {
                assert(piece@.subrange(0, piece@.len() - 1) =~= piece@.drop_last());
            }
            out.push(clipped);
        } else {
            let copy = piece.clone();
            out.push(copy);
        }
        proof {
            assert(strings_view(out@) =~= prev + seq![strip_cr(kept[i as int])]);
            assert(kept.subrange(0, i as int + 1).drop_last() =~= kept.subrange(0, i as int));
            assert(kept.subrange(0, i as int + 1).map_values(|l: Seq<char>| strip_cr(l)) =~= prev
                + seq![strip_cr(kept[i as int])]);
        }
        i = i + 1;
    }
    proof {
        assert(kept.subrange(0, kept.len() as int) =~= kept);
    }
    out
}

/// Number of words (maximal non-whitespace runs) among the first `k`
/// characters of `s`.
pub open spec fn words_upto(s: Seq<char>, k: int) -> int
    recommends
        0 <= k <= s.len(),
    decreases k,
    when 0 <= k <= s.len()
{
    if k <= 0 {
        0
    } else {
        words_upto(s, k - 1) + if !is_space_char(s[k - 1]) && (k - 1 == 0 || is_space_char(
            s[k - 2],
        )) {
            1int
        } else {
            0int
        }
    }
}

/// Number of words of `s`, splitting at whitespace.
pub open spec fn spec_word_count(s: Seq<char>) -> int {
    words_upto(s, s.len() as int)
}

pub proof fn lemma_words_upto_bound(s: Seq<char>, k: int)
    requires
        0 <= k <= s.len(),
    ensures
        0 <= words_upto(s, k) <= k,
    decreases k,
{
    if k > 0 {
        lemma_words_upto_bound(s, k - 1);
    }
}

/// Counts the words of `s`, splitting at whitespace.
#[verifier::loop_isolation(false)]
pub fn count_words(s: &str) -> (r: usize)
    ensures
        r == spec_word_count(s@),
{
    let len = s.unicode_len();
    let mut count: usize = 0;
    let mut i: usize = 0;
    let mut prev_space = true;
    while i < len
        invariant
            0 <= i <= len,
            count == words_upto(s@, i as int),
            count <= i,
            prev_space == (i == 0 || is_space_char(s@[i as int - 1])),
        decreases len - i,
    {
        let c = s.get_char(i);
        let sp = is_space(c);
        if !sp && prev_space {
            count = count + 1;
        }
        proof {
            lemma_words_upto_bound(s@, i as int + 1);
        }
        prev_space = sp;
        i = i + 1;
    }
    count
}

} // verus!
