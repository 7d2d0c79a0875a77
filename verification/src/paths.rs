//! Path joining for candidate resolution, modelled on strings with `/` as
//! the separator: an absolute right-hand side replaces the base.

use vstd::prelude::*;
use vstd::string::StrSliceExecFns;
use vstd::string::StringExecFns;

verus! {

/// `rel` under `base`: `rel` itself when absolute, else the two joined with
/// one separator between them.
pub open spec fn spec_join_path(base: Seq<char>, rel: Seq<char>) -> Seq<char> {
    if rel.len() > 0 && rel[0] == '/' {
        rel
    } else if base.len() > 0 && base[base.len() - 1] == '/' {
        base + rel
    } else {
        base + seq!['/'] + rel
    }
}

/// Joins a path under a base directory.
pub fn join_path(base: &str, rel: &str) -> (r: String)
    ensures
        r@ == spec_join_path(base@, rel@),
{
    let rlen = rel.unicode_len();
    if rlen > 0 && rel.get_char(0) == '/' {
        return rel.to_owned();
    }
    let blen = base.unicode_len();
    let mut out = String::from_str(base);
    if blen > 0 && base.get_char(blen - 1) == '/' {
        out.append(rel);
        out
    } else {
        out.append("/");
        out.append(rel);
        proof {
            reveal_strlit("/");
            assert(base@ + "/"@ + rel@ =~= base@ + seq!['/'] + rel@);
        }
        out
    }
}

/// Start of the final path component of `p` before position `j`: the
/// position just after the last separator, or the start of `p`.
pub open spec fn file_name_start(p: Seq<char>, j: int) -> int
    recommends
        0 <= j <= p.len(),
    decreases j,
    when 0 <= j <= p.len()
{
    if j <= 0 {
        0
    } else if p[j - 1] == '/' {
        j
    } else {
        file_name_start(p, j - 1)
    }
}

pub proof fn lemma_file_name_start_is(p: Seq<char>, j: int, b: int)
    requires
        0 <= b <= j <= p.len(),
        forall|m: int| b <= m < j ==> p[m] != '/',
        b == 0 || p[b - 1] == '/',
    ensures
        file_name_start(p, j) == b,
    decreases j - b,
{
    if b < j {
        lemma_file_name_start_is(p, j - 1, b);
    }
}

/// The final component of a path: what follows its last separator.
pub open spec fn spec_file_name(p: Seq<char>) -> Seq<char> {
    p.subrange(file_name_start(p, p.len() as int), p.len() as int)
}

/// Takes the final component of a path.
#[verifier::loop_isolation(false)]
pub fn file_name_of(p: &str) -> (r: String)
    ensures
        r@ == spec_file_name(p@),
{
    let len = p.unicode_len();
    let mut b: usize = len;
    while b > 0 && p.get_char(b - 1) != '/'
        invariant
            0 <= b <= len,
            forall|m: int| b <= m < len ==> p@[m] != '/',
        decreases b,
    {
        b = b - 1;
    }
    proof {
        lemma_file_name_start_is(p@, len as int, b as int);
    }
    p.substring_char(b, len).to_owned()
}

/// The assets directory that sits beside the running executable's directory.
pub fn get_asset_dir_path(exe_dir: &str) -> (r: String)
    ensures
        r@ == spec_join_path(exe_dir@, "assets"@),
{
    join_path(exe_dir, "assets")
}

} // verus!
