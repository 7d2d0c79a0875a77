//! Document-model HTML utilities: extraction of the plain text and of the
//! headings of a rendered document, for metadata derivation and navigation.

use vstd::prelude::*;
use vstd::string::StrSliceExecFns;

verus! {

/// A heading of a document: its level and its flattened text.
#[derive(Debug, Clone)]
pub struct HtmlHeading {
    pub rank: u8,
    pub text: String,
}

/// Name for the plain text that the document-model stripper extracts from
/// given markup: a function of the markup alone.
pub uninterp spec fn plain_text_of(s: Seq<char>) -> Seq<char>;

/// Relies on scraper's Html::parse_fragment and text traversal: the parsed
/// document's text with all markup (scripts and styles included) dropped and
/// the ends trimmed; a function of the input alone.
#[verifier::external_body]
pub fn strip_html(s: &str) -> (r: String)
    ensures
        r@ == plain_text_of(s@),
{
    let fragment = scraper::Html::parse_fragment(s);
    fragment.root_element().text().collect::<String>().trim().to_string()
}

/// Name for the heading elements the document model finds in given markup,
/// in document order, each as its tag name and flattened trimmed text: a
/// function of the markup alone.
pub uninterp spec fn heading_elements_of(s: Seq<char>) -> Seq<(Seq<char>, Seq<char>)>;

/// Relies on scraper's Html::parse_fragment and selector matching with the
/// selector `h1, h2, h3, h4, h5, h6`: the heading elements in document
/// order; a function of the input alone.
#[verifier::external_body]
fn collect_headings(html: &str) -> (r: Vec<(String, String)>)
    ensures
        r@.map_values(|p: (String, String)| (p.0@, p.1@)) == heading_elements_of(html@),
{
    let fragment = scraper::Html::parse_fragment(html);
    let mut result = Vec::new();
    if let Ok(selector) = scraper::Selector::parse("h1, h2, h3, h4, h5, h6") {
        for element in fragment.select(&selector) {
            let name = element.value().name().to_string();
            let text = element.text().collect::<String>().trim().to_string();
            result.push((name, text));
        }
    }
    result
}

/// The numeric value of a decimal digit character; 0 otherwise.
pub open spec fn spec_digit_value(c: char) -> u8 {
    if c == '1' {
        1
    } else if c == '2' {
        2
    } else if c == '3' {
        3
    } else if c == '4' {
        4
    } else if c == '5' {
        5
    } else if c == '6' {
        6
    } else if c == '7' {
        7
    } else if c == '8' {
        8
    } else if c == '9' {
        9
    } else {
        0
    }
}

fn digit_value(c: char) -> (r: u8)
    ensures
        r == spec_digit_value(c),
{
    if c == '1' {
        1
    } else if c == '2' {
        2
    } else if c == '3' {
        3
    } else if c == '4' {
        4
    } else if c == '5' {
        5
    } else if c == '6' {
        6
    } else if c == '7' {
        7
    } else if c == '8' {
        8
    } else if c == '9' {
        9
    } else {
        0
    }
}

/// The rank a heading tag name denotes: the digit after the leading letter,
/// 0 where there is none.
pub open spec fn spec_heading_rank(name: Seq<char>) -> u8 {
    if name.len() > 1 {
        spec_digit_value(name[1])
    } else {
        0
    }
}

/// The headings of given markup, each with its rank and text.
pub open spec fn spec_headings(s: Seq<char>) -> Seq<(u8, Seq<char>)> {
    heading_elements_of(s).map_values(|p: (Seq<char>, Seq<char>)| (spec_heading_rank(p.0), p.1))
}

/// Extracts the headings of a rendered document, in order, each with its
/// level and flattened text.
#[verifier::loop_isolation(false)]
pub fn parse_html(html: &str) -> (r: Vec<HtmlHeading>)
    ensures
        r@.map_values(|h: HtmlHeading| (h.rank, h.text@)) == spec_headings(html@),
{
    let raw = collect_headings(html);
    let ghost rv = raw@.map_values(|p: (String, String)| (p.0@, p.1@));
    let mut out: Vec<HtmlHeading> = Vec::new();
    let mut i: usize = 0;
    while i < raw.len()
        invariant
            0 <= i <= raw@.len(),
            rv == raw@.map_values(|p: (String, String)| (p.0@, p.1@)),
            out@.map_values(|h: HtmlHeading| (h.rank, h.text@)) =~= rv.map_values(
                |p: (Seq<char>, Seq<char>)| (spec_heading_rank(p.0), p.1),
            ).subrange(0, i as int),
        decreases raw@.len() - i,
    {
        let name = &raw[i].0;
        let rank: u8 = if name.as_str().unicode_len() > 1 {
            digit_value(name.as_str().get_char(1))
        } else {
            0
        };
        let ghost prev = out@.map_values(|h: HtmlHeading| (h.rank, h.text@));
        out.push(HtmlHeading { rank, text: raw[i].1.clone() });
        proof {
            assert(out@.map_values(|h: HtmlHeading| (h.rank, h.text@)) =~= prev + seq![
                (spec_heading_rank(rv[i as int].0), rv[i as int].1),
            ]);
        }
        i = i + 1;
    }
    proof {
        assert(spec_headings(html@).subrange(0, spec_headings(html@).len() as int) =~= spec_headings(
            html@,
        ));
    }
    out
}

} // verus!
