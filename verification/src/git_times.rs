//! Parsing of version-control history output, and selection of a file's
//! creation and modification times from it.
//!
//! The history text lists commits newest first: a `commit` line with the
//! hash, `Author:` and `Date:` lines, then an empty line followed by the
//! indented message, ended by another empty line.

use vstd::prelude::*;
use vstd::string::StrSliceExecFns;
use vstd::string::StringExecFns;

use crate::text::find_char;
use crate::text::lemma_find_char_is;
use crate::text::lines_of;
use crate::text::spec_lines;
use crate::text::spec_starts_with;
use crate::text::spec_trim;
use crate::text::str_starts_with;
use crate::text::strings_view;
use crate::text::trim_str;

verus! {

/// One commit of a file's history.
#[derive(Debug, Clone)]
pub struct Commit {
    pub hash: String,
    pub message: String,
    pub author: String,
    pub date: String,
}

/// Mathematical model of a [`Commit`].
pub struct CommitModel {
    pub hash: Seq<char>,
    pub message: Seq<char>,
    pub author: Seq<char>,
    pub date: Seq<char>,
}

impl View for Commit {
    type V = CommitModel;

    open spec fn view(&self) -> CommitModel {
        CommitModel {
            hash: self.hash@,
            message: self.message@,
            author: self.author@,
            date: self.date@,
        }
    }
}

/// The commit every field of which is empty.
pub open spec fn empty_commit() -> CommitModel {
    CommitModel {
        hash: Seq::empty(),
        message: Seq::empty(),
        author: Seq::empty(),
        date: Seq::empty(),
    }
}

impl Default for Commit {
    fn default() -> (c: Commit)
        ensures
            c@ == empty_commit(),
    {
        Commit {
            hash: String::new(),
            message: String::new(),
            author: String::new(),
            date: String::new(),
        }
    }
}

/// A file's history, newest commit first.
pub type BlameInfo = Vec<Commit>;

/// The views of a vector of commits.
pub open spec fn commits_view(cs: Seq<Commit>) -> Seq<CommitModel> {
    cs.map_values(|c: Commit| c@)
}

/// What follows the first space of `s`, trimmed; empty if `s` has no space.
pub open spec fn spec_rest_after_space(s: Seq<char>) -> Seq<char> {
    let j = find_char(s, ' ', 0);
    if j == s.len() {
        Seq::empty()
    } else {
        spec_trim(s.skip(j + 1))
    }
}

/// Takes what follows the first space of a header line, trimmed.
#[verifier::loop_isolation(false)]
pub fn rest_after_space(s: &str) -> (r: String)
    ensures
        r@ == spec_rest_after_space(s@),
{
    let len = s.unicode_len();
    let mut j: usize = 0;
    while j < len && s.get_char(j) != ' '
        invariant
            0 <= j <= len,
            forall|m: int| 0 <= m < j ==> s@[m] != ' ',
        decreases len - j,
    {
        j = j + 1;
    }
    proof {
        lemma_find_char_is(s@, ' ', 0, j as int);
    }
    if j == len {
        String::new()
    } else {
        let rest = s.substring_char(j + 1, len);
        proof {
            assert(rest@ =~= s@.skip(j as int + 1));
        }
        trim_str(rest)
    }
}

/// Index of the first empty member of `ls` at or after `i`; `ls.len()` if
/// none.
pub open spec fn message_end(ls: Seq<Seq<char>>, i: int) -> int
    recommends
        0 <= i <= ls.len(),
    decreases ls.len() - i,
    when 0 <= i <= ls.len()
{
    if i >= ls.len() {
        ls.len() as int
    } else if ls[i].len() == 0 {
        i
    } else {
        message_end(ls, i + 1)
    }
}

pub proof fn lemma_message_end_bounds(ls: Seq<Seq<char>>, i: int)
    requires
        0 <= i <= ls.len(),
    ensures
        i <= message_end(ls, i) <= ls.len(),
        forall|j: int| i <= j < message_end(ls, i) ==> ls[j].len() > 0,
    decreases ls.len() - i,
{
    if i < ls.len() && ls[i].len() > 0 {
        lemma_message_end_bounds(ls, i + 1);
    }
}

pub proof fn lemma_message_end_is(ls: Seq<Seq<char>>, i: int, j: int)
    requires
        0 <= i <= j <= ls.len(),
        forall|m: int| i <= m < j ==> ls[m].len() > 0,
        j == ls.len() || ls[j].len() == 0,
    ensures
        message_end(ls, i) == j,
    decreases j - i,
{
    if i < j {
        lemma_message_end_is(ls, i + 1, j);
    }
}

/// Concatenation of the trimmed members of `ls` with indices in `[a, b)`.
pub open spec fn msg_concat(ls: Seq<Seq<char>>, a: int, b: int) -> Seq<char>
    recommends
        0 <= a && b <= ls.len(),
    decreases b - a,
{
    if a >= b {
        Seq::empty()
    } else {
        spec_trim(ls[a]) + msg_concat(ls, a + 1, b)
    }
}

pub proof fn lemma_msg_concat_snoc(ls: Seq<Seq<char>>, a: int, b: int)
    requires
        0 <= a <= b < ls.len(),
    ensures
        msg_concat(ls, a, b + 1) == msg_concat(ls, a, b) + spec_trim(ls[b]),
    decreases b - a,
{
    if a < b {
        lemma_msg_concat_snoc(ls, a + 1, b);
        assert(msg_concat(ls, a, b + 1) =~= msg_concat(ls, a, b) + spec_trim(ls[b]));
    } else {
        assert(msg_concat(ls, a + 1, a + 1) =~= Seq::<char>::empty());
        assert(msg_concat(ls, a, a + 1) =~= msg_concat(ls, a, a) + spec_trim(ls[a]));
    }
}

/// The commits parsed from the lines of history output from `i` on, with
/// `cur` the commit being assembled.
pub open spec fn parse_commits_from(ls: Seq<Seq<char>>, i: int, cur: CommitModel) -> Seq<
    CommitModel,
>
    recommends
        0 <= i <= ls.len(),
    decreases ls.len() - i,
    when 0 <= i <= ls.len()
    via parse_commits_from_decreases
{
    if i >= ls.len() {
        Seq::empty()
    } else {
        let l = ls[i];
        if spec_starts_with(l, "commit"@) {
            parse_commits_from(
                ls,
                i + 1,
                CommitModel { hash: spec_rest_after_space(l), ..cur },
            )
        } else if spec_starts_with(l, "Author: "@) {
            parse_commits_from(
                ls,
                i + 1,
                CommitModel { author: spec_rest_after_space(l), ..cur },
            )
        } else if spec_starts_with(l, "Date: "@) {
            parse_commits_from(
                ls,
                i + 1,
                CommitModel { date: spec_rest_after_space(l), ..cur },
            )
        } else if l.len() == 0 {
            let j = message_end(ls, i + 1);
            let finished = CommitModel { message: msg_concat(ls, i + 1, j), ..cur };
            let next = if j < ls.len() {
                j + 1
            } else {
                ls.len() as int
            };
            seq![finished] + parse_commits_from(ls, next, empty_commit())
        } else {
            parse_commits_from(ls, i + 1, cur)
        }
    }
}

#[via_fn]
proof fn parse_commits_from_decreases(ls: Seq<Seq<char>>, i: int, cur: CommitModel) {
    if 0 <= i < ls.len() {
        lemma_message_end_bounds(ls, i + 1);
    }
}

/// The commits parsed from whole history output.
pub open spec fn spec_parse_commits(output: Seq<char>) -> Seq<CommitModel> {
    parse_commits_from(spec_lines(output), 0, empty_commit())
}

/// Parses version-control history output into its commits, newest first.
#[verifier::loop_isolation(false)]
pub fn parse_commits(output: &str) -> (r: Vec<Commit>)
    ensures
        commits_view(r@) == spec_parse_commits(output@),
{
    let lines = lines_of(output);
    let ghost lsv = strings_view(lines@);
    let mut blame: Vec<Commit> = Vec::new();
    let mut cur = Commit::default();
    let mut i: usize = 0;
    while i < lines.len()
        invariant
            0 <= i <= lsv.len(),
            lsv == strings_view(lines@),
            spec_parse_commits(output@) == commits_view(blame@) + parse_commits_from(
                lsv,
                i as int,
                cur@,
            ),
        decreases lsv.len() - i,
    {
        let ghost cur0 = cur@;
        let l = &lines[i];
        if str_starts_with(l.as_str(), "commit") {
            cur.hash = rest_after_space(l.as_str());
            i = i + 1;
        } else if str_starts_with(l.as_str(), "Author: ") {
            cur.author = rest_after_space(l.as_str());
            i = i + 1;
        } else if str_starts_with(l.as_str(), "Date: ") {
            cur.date = rest_after_space(l.as_str());
            i = i + 1;
        } else if l.as_str().unicode_len() == 0 {
            let mut m = String::new();
            let mut k = i + 1;
            while k < lines.len() && lines[k].as_str().unicode_len() > 0
                invariant
                    i + 1 <= k <= lsv.len(),
                    forall|j: int| i + 1 <= j < k ==> lsv[j].len() > 0,
                    m@ == msg_concat(lsv, i as int + 1, k as int),
                decreases lsv.len() - k,
            {
                let t = trim_str(lines[k].as_str());
                m.append(t.as_str());
                proof {
                    lemma_msg_concat_snoc(lsv, i as int + 1, k as int);
                }
                k = k + 1;
            }
            proof {
                lemma_message_end_is(lsv, i as int + 1, k as int);
            }
            cur.message = m;
            let ghost finished = cur@;
            blame.push(cur);
            cur = Commit::default();
            proof {
                assert(commits_view(blame@) =~= commits_view(blame@.drop_last()) + seq![finished]);
                assert((commits_view(blame@.drop_last()) + seq![finished]) + parse_commits_from(
                    lsv,
                    if k < lsv.len() {
                        k as int + 1
                    } else {
                        lsv.len() as int
                    },
                    empty_commit(),
                ) =~= commits_view(blame@.drop_last()) + (seq![finished] + parse_commits_from(
                    lsv,
                    if k < lsv.len() {
                        k as int + 1
                    } else {
                        lsv.len() as int
                    },
                    empty_commit(),
                )));
            }
            if k < lines.len() {
                i = k + 1;
            } else {
                i = lines.len();
            }
        } else {
            i = i + 1;
        }
    }
    proof {
        assert(commits_view(blame@) + parse_commits_from(lsv, i as int, cur@) =~= commits_view(
            blame@,
        ));
    }
    blame
}

/// The date string of a file's most recent commit; `None` when the file has
/// no history, in which case the file counts as new and the caller takes the
/// current time.
pub fn get_git_modification_time(bi: &BlameInfo) -> (r: Option<&String>)
    ensures
        match r {
            Some(d) => bi@.len() > 0 && d@ == bi@[0]@.date,
            None => bi@.len() == 0,
        },
{
    if bi.len() == 0 {
        None
    } else {
        Some(&bi[0].date)
    }
}

/// The date string of a file's oldest commit; `None` when the file has no
/// history, in which case the file counts as new and the caller takes the
/// current time.
pub fn get_git_creation_time(bi: &BlameInfo) -> (r: Option<&String>)
    ensures
        match r {
            Some(d) => bi@.len() > 0 && d@ == bi@[bi@.len() - 1]@.date,
            None => bi@.len() == 0,
        },
{
    if bi.len() == 0 {
        None
    } else {
        Some(&bi[bi.len() - 1].date)
    }
}

} // verus!
