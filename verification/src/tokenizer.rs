//! Delimiter tokenizer.
//!
//! Scans template text for the four fixed two-character delimiters
//! `{{`, `}}`, `{%`, `%}` and yields the sequence of delimiter tokens and
//! the literal spans between them, left to right, non-overlapping, covering
//! the whole input exactly once.

use vstd::prelude::*;
use vstd::string::StrSliceExecFns;

verus! {

/// One token of the delimiter grammar: a fixed two-character delimiter or a
/// literal span of the source.
#[derive(Clone, Debug)]
pub enum Token {
    OpenExpr,
    CloseExpr,
    OpenStmt,
    CloseStmt,
    Literal(String),
}

/// Mathematical model of a [`Token`]: literal spans are character sequences.
pub enum TokenModel {
    OpenExpr,
    CloseExpr,
    OpenStmt,
    CloseStmt,
    Literal(Seq<char>),
}

impl View for Token {
    type V = TokenModel;

    open spec fn view(&self) -> TokenModel {
        match self {
            Token::OpenExpr => TokenModel::OpenExpr,
            Token::CloseExpr => TokenModel::CloseExpr,
            Token::OpenStmt => TokenModel::OpenStmt,
            Token::CloseStmt => TokenModel::CloseStmt,
            Token::Literal(s) => TokenModel::Literal(s@),
        }
    }
}

/// The characters a token stands for in the source text.
pub open spec fn token_text(t: TokenModel) -> Seq<char> {
    match t {
        TokenModel::OpenExpr => seq!['{', '{'],
        TokenModel::CloseExpr => seq!['}', '}'],
        TokenModel::OpenStmt => seq!['{', '%'],
        TokenModel::CloseStmt => seq!['%', '}'],
        TokenModel::Literal(s) => s,
    }
}

/// The delimiter starting at position `i` of `s`, if any.
pub open spec fn delim_at(s: Seq<char>, i: int) -> Option<TokenModel> {
    if 0 <= i && i + 2 <= s.len() {
        if s[i] == '{' && s[i + 1] == '{' {
            Some(TokenModel::OpenExpr)
        } else if s[i] == '}' && s[i + 1] == '}' {
            Some(TokenModel::CloseExpr)
        } else if s[i] == '{' && s[i + 1] == '%' {
            Some(TokenModel::OpenStmt)
        } else if s[i] == '%' && s[i + 1] == '}' {
            Some(TokenModel::CloseStmt)
        } else {
            None
        }
    } else {
        None
    }
}

pub open spec fn is_delim_at(s: Seq<char>, i: int) -> bool {
    delim_at(s, i) is Some
}

/// Position of the first delimiter of `s` at or after `i`; `s.len()` if none.
pub open spec fn next_delim(s: Seq<char>, i: int) -> int
    recommends
        0 <= i <= s.len(),
    decreases s.len() - i,
    when 0 <= i <= s.len()
{
    if i + 2 > s.len() {
        s.len() as int
    } else if is_delim_at(s, i) {
        i
    } else {
        next_delim(s, i + 1)
    }
}

pub proof fn lemma_next_delim_bounds(s: Seq<char>, i: int)
    requires
        0 <= i <= s.len(),
    ensures
        i <= next_delim(s, i) <= s.len(),
        next_delim(s, i) < s.len() ==> is_delim_at(s, next_delim(s, i)),
        forall|j: int| i <= j < next_delim(s, i) ==> !is_delim_at(s, j),
    decreases s.len() - i,
{
    if i + 2 > s.len() {
        assert forall|j: int| i <= j < s.len() implies !is_delim_at(s, j) by {}
    } else if is_delim_at(s, i) {
    } else {
        lemma_next_delim_bounds(s, i + 1);
    }
}

/// `next_delim` names the unique boundary: no delimiter before `j`, and `j`
/// is a delimiter or the end of the text.
pub proof fn lemma_next_delim_is(s: Seq<char>, i: int, j: int)
    requires
        0 <= i <= j <= s.len(),
        forall|m: int| i <= m < j ==> !is_delim_at(s, m),
        j == s.len() || is_delim_at(s, j),
    ensures
        next_delim(s, i) == j,
    decreases j - i,
{
    if i + 2 > s.len() {
        assert(!is_delim_at(s, i));
        if i < j {
            assert(j + 2 > s.len());
            assert(!is_delim_at(s, j));
            assert(j == s.len());
        } else {
            assert(i == j);
            assert(j == s.len());
        }
    } else if i == j {
    } else {
        assert(!is_delim_at(s, i));
        lemma_next_delim_is(s, i + 1, j);
    }
}

/// The token sequence of `s` from position `i` on.
pub open spec fn spec_tokenize_from(s: Seq<char>, i: int) -> Seq<TokenModel>
    recommends
        0 <= i <= s.len(),
    decreases s.len() - i,
    when 0 <= i <= s.len()
    via spec_tokenize_from_decreases
{
    if i >= s.len() {
        Seq::empty()
    } else if is_delim_at(s, i) {
        seq![delim_at(s, i).unwrap()] + spec_tokenize_from(s, i + 2)
    } else {
        let j = next_delim(s, i + 1);
        seq![TokenModel::Literal(s.subrange(i, j))] + spec_tokenize_from(s, j)
    }
}

#[via_fn]
proof fn spec_tokenize_from_decreases(s: Seq<char>, i: int) {
    if 0 <= i < s.len() && !is_delim_at(s, i) {
        lemma_next_delim_bounds(s, i + 1);
    }
}

/// The token sequence of a whole source text.
pub open spec fn spec_tokenize(s: Seq<char>) -> Seq<TokenModel> {
    spec_tokenize_from(s, 0)
}

/// Concatenation of the texts of a token sequence.
pub open spec fn tokens_text(ts: Seq<TokenModel>) -> Seq<char>
    decreases ts.len(),
{
    if ts.len() == 0 {
        Seq::empty()
    } else {
        token_text(ts[0]) + tokens_text(ts.drop_first())
    }
}

/// Tokenization is lossless: the token texts, concatenated in order,
/// reproduce the source exactly, for every source text.
pub proof fn lemma_tokenize_covers_from(s: Seq<char>, i: int)
    requires
        0 <= i <= s.len(),
    ensures
        tokens_text(spec_tokenize_from(s, i)) == s.subrange(i, s.len() as int),
    decreases s.len() - i,
{
    if i >= s.len() {
        assert(tokens_text(spec_tokenize_from(s, i)) =~= s.subrange(i, s.len() as int));
    } else if is_delim_at(s, i) {
        lemma_tokenize_covers_from(s, i + 2);
        let ts = spec_tokenize_from(s, i);
        assert(ts.drop_first() =~= spec_tokenize_from(s, i + 2));
        assert(token_text(ts[0]) =~= s.subrange(i, i + 2));
        assert(s.subrange(i, i + 2) + s.subrange(i + 2, s.len() as int) =~= s.subrange(
            i,
            s.len() as int,
        ));
    } else {
        lemma_next_delim_bounds(s, i + 1);
        let j = next_delim(s, i + 1);
        lemma_tokenize_covers_from(s, j);
        let ts = spec_tokenize_from(s, i);
        assert(ts.drop_first() =~= spec_tokenize_from(s, j));
        assert(token_text(ts[0]) == s.subrange(i, j));
        assert(s.subrange(i, j) + s.subrange(j, s.len() as int) =~= s.subrange(i, s.len() as int));
    }
}

/// Law: concatenating all token contents reproduces the source exactly.
pub proof fn lemma_tokenize_covers(s: Seq<char>)
    ensures
        tokens_text(spec_tokenize(s)) == s,
{
    lemma_tokenize_covers_from(s, 0);
    assert(s.subrange(0, s.len() as int) =~= s);
}

/// Law: a non-empty source with no delimiters tokenizes to exactly one
/// literal token equal to the whole source.
pub proof fn lemma_no_delimiters_single_literal(s: Seq<char>)
    requires
        s.len() > 0,
        forall|j: int| 0 <= j < s.len() ==> !is_delim_at(s, j),
    ensures
        spec_tokenize(s) == seq![TokenModel::Literal(s)],
    decreases s.len(),
{
    assert(!is_delim_at(s, 0));
    lemma_next_delim_is(s, 1, s.len() as int);
    assert(s.subrange(0, s.len() as int) =~= s);
    assert(spec_tokenize_from(s, s.len() as int) =~= Seq::<TokenModel>::empty());
    assert(spec_tokenize(s) =~= seq![TokenModel::Literal(s)]);
}

/// A lazily advancing tokenizer over borrowed source text.
pub struct Tokenized<'a> {
    underlying_data: &'a str,
    position: usize,
}

/// Starts a token scan of `s` at its beginning.
pub fn tokenize<'a>(s: &'a str) -> (t: Tokenized<'a>)
    ensures
        t.src() == s@,
        t.pos() == 0,
        t.wf(),
{
    Tokenized { underlying_data: s, position: 0 }
}

impl<'a> Tokenized<'a> {
    /// The source text being scanned.
    pub closed spec fn src(&self) -> Seq<char> {
        self.underlying_data@
    }

    /// The current scan position, in characters.
    pub closed spec fn pos(&self) -> int {
        self.position as int
    }

    pub closed spec fn wf(&self) -> bool {
        self.position <= self.underlying_data@.len()
    }

    /// The tokens not yet produced.
    pub open spec fn remaining(&self) -> Seq<TokenModel> {
        spec_tokenize_from(self.src(), self.pos())
    }

    /// Produces the next token, advancing the scan; `None` at the end.
    #[verifier::loop_isolation(false)]
    pub fn next(&mut self) -> (r: Option<Token>)
        requires
            old(self).wf(),
        ensures
            final(self).wf(),
            final(self).src() == old(self).src(),
            match r {
                None => old(self).pos() == old(self).src().len() && final(self).pos() == old(
                    self,
                ).pos(),
                Some(tok) => old(self).remaining() == seq![tok@] + final(self).remaining()
                    && final(self).pos() > old(self).pos(),
            },
    {
        let ghost s = self.underlying_data@;
        let len = self.underlying_data.unicode_len();
        let start = self.position;

        if start >= len {
            return None;
        }
        if len - start >= 2 {
            let c0 = self.underlying_data.get_char(start);
            let c1 = self.underlying_data.get_char(start + 1);
            if c0 == '{' && c1 == '{' {
                self.position = start + 2;
                assert(s.subrange(start as int, start as int + 2) =~= seq!['{', '{']);
                return Some(Token::OpenExpr);
            }
            if c0 == '}' && c1 == '}' {
                self.position = start + 2;
                return Some(Token::CloseExpr);
            }
            if c0 == '{' && c1 == '%' {
                self.position = start + 2;
                return Some(Token::OpenStmt);
            }
            if c0 == '%' && c1 == '}' {
                self.position = start + 2;
                return Some(Token::CloseStmt);
            }
        }
        assert(!is_delim_at(s, start as int));

        let mut i = start + 1;
        while len - i >= 2
            invariant
                start + 1 <= i <= len,
                len == s.len(),
                self.underlying_data@ == s,
                self.position == start,
                start < len,
                forall|j: int| start + 1 <= j < i ==> !is_delim_at(s, j),
            decreases len - i,
        {
            let c0 = self.underlying_data.get_char(i);
            let c1 = self.underlying_data.get_char(i + 1);
            if (c0 == '{' && c1 == '{') || (c0 == '}' && c1 == '}') || (c0 == '{' && c1 == '%') || (
            c0 == '%' && c1 == '}') {
                proof {
                    lemma_next_delim_is(s, start as int + 1, i as int);
                }
                let lit = self.underlying_data.substring_char(start, i).to_owned();
                self.position = i;
                return Some(Token::Literal(lit));
            }
            i = i + 1;
        }
        proof {
            assert forall|j: int| start + 1 <= j < s.len() implies !is_delim_at(s, j) by {
                if j < i {
                } else {
                    assert(j + 2 > s.len());
                }
            }
            lemma_next_delim_is(s, start as int + 1, s.len() as int);
        }
        let lit = self.underlying_data.substring_char(start, len).to_owned();
        self.position = len;
        Some(Token::Literal(lit))
    }
}

/// The views of a vector of tokens.
pub open spec fn tokens_view(ts: Seq<Token>) -> Seq<TokenModel> {
    ts.map_values(|t: Token| t@)
}

/// Tokenizes a whole source text at once.
pub fn collect_tokens(s: &str) -> (r: Vec<Token>)
    ensures
        tokens_view(r@) == spec_tokenize(s@),
{
    let mut scan = tokenize(s);
    let mut out: Vec<Token> = Vec::new();
    loop
        invariant
            scan.wf(),
            scan.src() == s@,
            spec_tokenize(s@) == tokens_view(out@) + scan.remaining(),
        ensures
            scan.remaining() =~= Seq::<TokenModel>::empty(),
            spec_tokenize(s@) == tokens_view(out@) + scan.remaining(),
        decreases scan.src().len() - scan.pos(),
    {
        let t = scan.next();
        match t {
            None => {
                break ;
            },
            Some(tok) => {
                let ghost prev = tokens_view(out@);
                let ghost tv = tok@;
                out.push(tok);
                proof {
                    assert(tokens_view(out@) =~= prev + seq![tv]);
                    assert(prev + (seq![tv] + scan.remaining()) =~= (prev + seq![tv])
                        + scan.remaining());
                }
            },
        }
    }
    proof {
        assert(scan.remaining() =~= Seq::<TokenModel>::empty());
        assert(tokens_view(out@) + scan.remaining() =~= tokens_view(out@));
    }
    out
}

} // verus!
