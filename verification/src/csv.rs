//! Parsing of simple comma-separated data files: one row per line, empty
//! cells and empty rows dropped.

use vstd::prelude::*;
use vstd::string::StrSliceExecFns;

use crate::text::lines_of;
use crate::text::spec_lines;
use crate::text::spec_split;
use crate::text::split_str;
use crate::text::strings_view;

verus! {

/// The non-empty members of a sequence of sequences, in order.
pub open spec fn keep_nonempty<A>(ps: Seq<Seq<A>>) -> Seq<Seq<A>>
    decreases ps.len(),
{
    if ps.len() == 0 {
        Seq::empty()
    } else {
        (if ps[0].len() > 0 {
            seq![ps[0]]
        } else {
            Seq::empty()
        }) + keep_nonempty(ps.drop_first())
    }
}

pub proof fn lemma_keep_nonempty_snoc<A>(ps: Seq<Seq<A>>, x: Seq<A>)
    ensures
        keep_nonempty(ps.push(x)) == keep_nonempty(ps) + (if x.len() > 0 {
            seq![x]
        } else {
            Seq::<Seq<A>>::empty()
        }),
    decreases ps.len(),
{
    if ps.len() == 0 {
        assert(ps.push(x).drop_first() =~= Seq::<Seq<A>>::empty());
        assert(ps.push(x)[0] == x);
        assert(keep_nonempty(Seq::<Seq<A>>::empty()) =~= Seq::<Seq<A>>::empty());
        assert(keep_nonempty(ps) =~= Seq::<Seq<A>>::empty());
        assert(keep_nonempty(ps.push(x)) =~= keep_nonempty(ps) + (if x.len() > 0 {
            seq![x]
        } else {
            Seq::<Seq<A>>::empty()
        }));
    } else {
        assert(ps.push(x).drop_first() =~= ps.drop_first().push(x));
        lemma_keep_nonempty_snoc(ps.drop_first(), x);
        assert(keep_nonempty(ps.push(x)) =~= keep_nonempty(ps) + (if x.len() > 0 {
            seq![x]
        } else {
            Seq::<Seq<A>>::empty()
        }));
    }
}

/// The cells of one data row: the line split at the separator, empty cells
/// dropped.
pub open spec fn spec_csv_row(l: Seq<char>, sep: char) -> Seq<Seq<char>> {
    keep_nonempty(spec_split(l, sep))
}

/// The rows of a data file: one per line, empty rows dropped.
pub open spec fn spec_csv(s: Seq<char>, sep: char) -> Seq<Seq<Seq<char>>> {
    keep_nonempty(spec_lines(s).map_values(|l: Seq<char>| spec_csv_row(l, sep)))
}

/// The views of a table of strings.
pub open spec fn rows_view(rows: Seq<Vec<String>>) -> Seq<Seq<Seq<char>>> {
    rows.map_values(|row: Vec<String>| strings_view(row@))
}

/// Splits one line into its non-empty cells.
#[verifier::loop_isolation(false)]
fn parse_csv_row(line: &str, sep: char) -> (row: Vec<String>)
    ensures
        strings_view(row@) == spec_csv_row(line@, sep),
{
    let pieces = split_str(line, sep);
    let ghost pv = strings_view(pieces@);
    let mut row: Vec<String> = Vec::new();
    let mut j: usize = 0;
    while j < pieces.len()
        invariant
            0 <= j <= pv.len(),
            pv == strings_view(pieces@),
            strings_view(row@) == keep_nonempty(pv.subrange(0, j as int)),
        decreases pv.len() - j,
    {
        let ghost prev = strings_view(row@);
        if pieces[j].as_str().unicode_len() > 0 {
            row.push(pieces[j].clone());
            proof {
                assert(strings_view(row@) =~= prev + seq![pv[j as int]]);
            }
        }
        proof {
            assert(pv.subrange(0, j as int + 1) =~= pv.subrange(0, j as int).push(pv[j as int]));
            lemma_keep_nonempty_snoc(pv.subrange(0, j as int), pv[j as int]);
        }
        j = j + 1;
    }
    proof {
        assert(pv.subrange(0, pv.len() as int) =~= pv);
    }
    row
}

/// Parses comma-separated file content into its rows of non-empty cells,
/// dropping lines with no cells.
#[verifier::loop_isolation(false)]
fn read_csv_with_sep(content: &str, sep: char) -> (r: Vec<Vec<String>>)
    ensures
        rows_view(r@) == spec_csv(content@, sep),
{
    let lines = lines_of(content);
    let ghost lsv = strings_view(lines@);
    let ghost mapped = lsv.map_values(|l: Seq<char>| spec_csv_row(l, sep));
    let mut out: Vec<Vec<String>> = Vec::new();
    let mut i: usize = 0;
    while i < lines.len()
        invariant
            0 <= i <= lsv.len(),
            lsv == strings_view(lines@),
            mapped == lsv.map_values(|l: Seq<char>| spec_csv_row(l, sep)),
            rows_view(out@) == keep_nonempty(mapped.subrange(0, i as int)),
        decreases lsv.len() - i,
    {
        let row = parse_csv_row(lines[i].as_str(), sep);
        let ghost prev = rows_view(out@);
        if row.len() > 0 {
            proof {
                assert(strings_view(row@).len() > 0);
            }
            out.push(row);
            proof {
                assert(rows_view(out@) =~= prev + seq![mapped[i as int]]);
            }
        } else {
            proof {
                assert(strings_view(row@).len() == 0);
            }
        }
        proof {
            assert(mapped.subrange(0, i as int + 1) =~= mapped.subrange(0, i as int).push(
                mapped[i as int],
            ));
            lemma_keep_nonempty_snoc(mapped.subrange(0, i as int), mapped[i as int]);
        }
        i = i + 1;
    }
    proof {
        assert(mapped.subrange(0, mapped.len() as int) =~= mapped);
    }
    out
}

/// Parses comma-separated file content into its rows.
pub fn read_csv_file(content: &str) -> (r: Vec<Vec<String>>)
    ensures
        rows_view(r@) == spec_csv(content@, ','),
{
    read_csv_with_sep(content, ',')
}

} // verus!
