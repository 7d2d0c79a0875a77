//! Fast tag stripping: removes every span from a `<` to the next `>` from a
//! string. Character-exact but markup-naive; good enough where speed matters
//! more than a full document model.

use vstd::prelude::*;
use vstd::string::StrSliceExecFns;
use vstd::string::StringExecFns;

use crate::text::find_char;
use crate::text::find_char_from;
use crate::text::lemma_find_char_bounds;

verus! {

/// `s` from position `i` on, with every complete tag span removed: a span
/// runs from a `<` to the first `>` after it; a `<` with no later `>` is
/// kept as ordinary text.
pub open spec fn strip_tags_from(s: Seq<char>, i: int) -> Seq<char>
    recommends
        0 <= i <= s.len(),
    decreases s.len() - i,
    when 0 <= i <= s.len()
    via strip_tags_from_decreases
{
    let a = find_char(s, '<', i);
    if a == s.len() {
        s.subrange(i, s.len() as int)
    } else {
        let b = find_char(s, '>', a + 1);
        if b == s.len() {
            s.subrange(i, s.len() as int)
        } else {
            s.subrange(i, a) + strip_tags_from(s, b + 1)
        }
    }
}

#[via_fn]
proof fn strip_tags_from_decreases(s: Seq<char>, i: int) {
    if 0 <= i <= s.len() {
        lemma_find_char_bounds(s, '<', i);
        let a = find_char(s, '<', i);
        if a < s.len() {
            lemma_find_char_bounds(s, '>', a + 1);
        }
    }
}

/// `s` with every complete tag span removed.
pub open spec fn spec_strip_tags(s: Seq<char>) -> Seq<char> {
    strip_tags_from(s, 0)
}

/// Strips tag spans from a string.
#[verifier::loop_isolation(false)]
pub fn strip_html(s: &str) -> (r: String)
    ensures
        r@ == spec_strip_tags(s@),
{
    let len = s.unicode_len();
    let mut out = String::new();
    let mut i: usize = 0;
    while i < len
        invariant
            0 <= i <= len,
            spec_strip_tags(s@) == out@ + strip_tags_from(s@, i as int),
        decreases len - i,
    {
        let a = find_char_from(s, '<', i);
        proof {
            lemma_find_char_bounds(s@, '<', i as int);
        }
        if a == len {
            let tail = s.substring_char(i, len);
            out.append(tail);
            i = len;
        } else {
            let b = find_char_from(s, '>', a + 1);
            proof {
                lemma_find_char_bounds(s@, '>', a as int + 1);
            }
            if b == len {
                let tail = s.substring_char(i, len);
                out.append(tail);
                i = len;
            } else {
                let kept = s.substring_char(i, a);
                out.append(kept);
                i = b + 1;
            }
        }
    }
    proof {
        assert(strip_tags_from(s@, len as int) =~= Seq::<char>::empty());
        assert(out@ + strip_tags_from(s@, len as int) =~= out@);
    }
    out
}

} // verus!
