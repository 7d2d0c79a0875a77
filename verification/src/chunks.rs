//! Chunk classifier and loop unroller.
//!
//! Consumes the token stream and produces a sequence of typed chunks: raw
//! text, value expressions (`{{ .. }}`), and control statements (`{% .. %}`).
//! A statement opening with a loop or conditional keyword switches to loop
//! mode: every following token is folded into one synthesized script chunk
//! that accumulates strings and returns their concatenation; the second
//! statement close after that finalizes the block.

use vstd::prelude::*;
use vstd::string::StringExecFns;

use crate::text::spec_starts_with;
use crate::text::spec_trim;
use crate::text::trim_str;
use crate::tokenizer::Token;
use crate::tokenizer::TokenModel;
use crate::tokenizer::collect_tokens;
use crate::tokenizer::spec_tokenize;
use crate::tokenizer::tokens_view;

verus! {

/// How a chunk is treated when a file is compiled.
#[derive(Clone, Copy, Debug, PartialEq, Eq, Structural)]
pub enum ParseChunkType {
    /// Literal bytes emitted verbatim.
    RawText,
    /// A script statement executed for its side effects.
    LuaController,
    /// A script expression whose stringified result replaces the chunk.
    LuaValue,
}

/// A classified unit of a parsed template.
#[derive(Clone, Debug)]
pub struct ParseChunk {
    pub chunk: String,
    pub chunk_type: ParseChunkType,
}

/// Mathematical model of a [`ParseChunk`].
pub struct ChunkModel {
    pub text: Seq<char>,
    pub kind: ParseChunkType,
}

impl View for ParseChunk {
    type V = ChunkModel;

    open spec fn view(&self) -> ChunkModel {
        ChunkModel { text: self.chunk@, kind: self.chunk_type }
    }
}

/// The views of a vector of chunks.
pub open spec fn chunks_view(cs: Seq<ParseChunk>) -> Seq<ChunkModel> {
    cs.map_values(|c: ParseChunk| c@)
}

/// Classifier state: which delimiter modes are open, the expression literal
/// waiting for its closing delimiter, and the accumulated generated code of
/// the loop block being unrolled.
pub struct ClassifyState {
    pub in_expr: bool,
    pub in_stmt: bool,
    pub in_loop: bool,
    pub end_pending: bool,
    pub pending_expr: Option<Seq<char>>,
    pub buf: Seq<char>,
}

pub open spec fn init_state() -> ClassifyState {
    ClassifyState {
        in_expr: false,
        in_stmt: false,
        in_loop: false,
        end_pending: false,
        pending_expr: None,
        buf: Seq::empty(),
    }
}

/// Does a trimmed statement open a loop or conditional block?
pub open spec fn spec_is_block_opener(tr: Seq<char>) -> bool {
    spec_starts_with(tr, "for "@) || spec_starts_with(tr, "if "@) || spec_starts_with(
        tr,
        "while "@,
    )
}

/// Generated code: append an evaluated expression to the accumulator.
pub open spec fn gen_expr_insert(t: Seq<char>) -> Seq<char> {
    "table.insert(result,("@ + t + "))\n"@
}

/// Generated code: append a literal block to the accumulator.
pub open spec fn gen_literal_insert(t: Seq<char>) -> Seq<char> {
    "table.insert(result,[=====["@ + t + "]=====])\n"@
}

/// Generated code: start a loop block with a fresh accumulator.
pub open spec fn gen_loop_header(tr: Seq<char>) -> Seq<char> {
    "result = {}\n"@ + tr + "\n"@
}

/// Generated code: return the concatenated accumulator.
pub open spec fn loop_footer() -> Seq<char> {
    "return table.concat(result)"@
}

/// Generated code: evaluate a standalone expression chunk.
pub open spec fn gen_return_expr(t: Seq<char>) -> Seq<char> {
    "return "@ + t
}

/// One classifier transition: the next state and the chunks emitted.
pub open spec fn spec_step(st: ClassifyState, t: TokenModel) -> (ClassifyState, Seq<ChunkModel>) {
    match t {
        TokenModel::OpenExpr => (ClassifyState { in_expr: true, ..st }, Seq::empty()),
        TokenModel::CloseExpr => {
            if st.in_loop {
                (ClassifyState { in_expr: false, ..st }, Seq::empty())
            } else {
                match st.pending_expr {
                    Some(t) => (
                        ClassifyState { in_expr: false, pending_expr: None, ..st },
                        seq![
                            ChunkModel { text: gen_return_expr(t), kind: ParseChunkType::LuaValue },
                        ],
                    ),
                    None => (ClassifyState { in_expr: false, ..st }, Seq::empty()),
                }
            }
        },
        TokenModel::OpenStmt => (ClassifyState { in_stmt: true, ..st }, Seq::empty()),
        TokenModel::CloseStmt => {
            if st.in_loop {
                if st.end_pending {
                    (
                        ClassifyState {
                            in_stmt: false,
                            in_loop: false,
                            end_pending: false,
                            buf: Seq::empty(),
                            ..st
                        },
                        seq![
                            ChunkModel {
                                text: st.buf + loop_footer(),
                                kind: ParseChunkType::LuaValue,
                            },
                        ],
                    )
                } else {
                    (ClassifyState { in_stmt: false, end_pending: true, ..st }, Seq::empty())
                }
            } else {
                (ClassifyState { in_stmt: false, ..st }, Seq::empty())
            }
        },
        TokenModel::Literal(s) => {
            if st.in_loop {
                if st.in_expr {
                    (ClassifyState { buf: st.buf + gen_expr_insert(s), ..st }, Seq::empty())
                } else if st.in_stmt {
                    (
                        ClassifyState { buf: st.buf + spec_trim(s) + "\n"@, ..st },
                        Seq::empty(),
                    )
                } else {
                    (ClassifyState { buf: st.buf + gen_literal_insert(s), ..st }, Seq::empty())
                }
            } else if st.in_expr {
                (ClassifyState { pending_expr: Some(s), ..st }, Seq::empty())
            } else if st.in_stmt {
                let tr = spec_trim(s);
                if spec_is_block_opener(tr) {
                    (
                        ClassifyState {
                            in_loop: true,
                            end_pending: false,
                            buf: gen_loop_header(tr),
                            ..st
                        },
                        Seq::empty(),
                    )
                } else {
                    (st, seq![ChunkModel { text: s, kind: ParseChunkType::LuaController }])
                }
            } else {
                (st, seq![ChunkModel { text: s, kind: ParseChunkType::RawText }])
            }
        },
    }
}

/// Classifier state and emitted chunks after consuming `ts`, starting from
/// the initial state. Unmatched open delimiters at the end of the input emit
/// nothing: a loop block still open drops its buffer, and an expression
/// still open drops its pending literal.
pub open spec fn classify_fold(ts: Seq<TokenModel>) -> (ClassifyState, Seq<ChunkModel>)
    decreases ts.len(),
{
    if ts.len() == 0 {
        (init_state(), Seq::empty())
    } else {
        let prev = classify_fold(ts.drop_last());
        let stepped = spec_step(prev.0, ts.last());
        (stepped.0, prev.1 + stepped.1)
    }
}

/// The chunk sequence a token sequence classifies to.
pub open spec fn spec_classify(ts: Seq<TokenModel>) -> Seq<ChunkModel> {
    classify_fold(ts).1
}

/// The chunk sequence of a whole source text.
pub open spec fn spec_classify_source(s: Seq<char>) -> Seq<ChunkModel> {
    spec_classify(spec_tokenize(s))
}

/// Classifies a token stream into typed chunks, unrolling loop blocks.
#[verifier::loop_isolation(false)]
pub fn classify_tokens(tokens: &Vec<Token>) -> (chunks: Vec<ParseChunk>)
    ensures
        chunks_view(chunks@) == spec_classify(tokens_view(tokens@)),
{
    let ghost ts = tokens_view(tokens@);
    let mut chunks: Vec<ParseChunk> = Vec::new();
    let mut in_expr = false;
    let mut in_stmt = false;
    let mut in_loop = false;
    let mut end_pending = false;
    let mut pending_expr: Option<String> = None;
    let mut buf = String::new();
    let mut idx: usize = 0;
    while idx < tokens.len()
        invariant
            0 <= idx <= tokens@.len(),
            classify_fold(ts.take(idx as int)).0.in_expr == in_expr,
            classify_fold(ts.take(idx as int)).0.in_stmt == in_stmt,
            classify_fold(ts.take(idx as int)).0.in_loop == in_loop,
            classify_fold(ts.take(idx as int)).0.end_pending == end_pending,
            match pending_expr {
                Some(p) => classify_fold(ts.take(idx as int)).0.pending_expr == Some(p@),
                None => classify_fold(ts.take(idx as int)).0.pending_expr is None,
            },
            classify_fold(ts.take(idx as int)).0.buf == buf@,
            classify_fold(ts.take(idx as int)).1 == chunks_view(chunks@),
        decreases tokens@.len() - idx,
    {
        let ghost st = classify_fold(ts.take(idx as int)).0;
        let ghost out0 = classify_fold(ts.take(idx as int)).1;
        proof {
            assert(ts.take(idx as int + 1).drop_last() =~= ts.take(idx as int));
            assert(ts.take(idx as int + 1).last() == ts[idx as int]);
        }
        let t = &tokens[idx];
        match t {
            Token::OpenExpr => {
                in_expr = true;
            },
            Token::CloseExpr => {
                in_expr = false;
                if !in_loop {
                    let held = pending_expr;
                    pending_expr = None;
                    if let Some(t) = held {
                        let mut chunk_text = String::from_str("return ");
                        chunk_text.append(t.as_str());
                        let ghost prev = chunks_view(chunks@);
                        chunks.push(
                            ParseChunk { chunk: chunk_text, chunk_type: ParseChunkType::LuaValue },
                        );
                        proof {
                            assert(chunks_view(chunks@) =~= prev + seq![
                                ChunkModel { text: gen_return_expr(t@), kind: ParseChunkType::LuaValue },
                            ]);
                        }
                    }
                }
            },
            Token::OpenStmt => {
                in_stmt = true;
            },
            Token::CloseStmt => {
                in_stmt = false;
                if in_loop {
                    if end_pending {
                        in_loop = false;
                        end_pending = false;
                        buf.append("return table.concat(result)");
                        let chunk_text = buf.clone();
                        buf = String::new();
                        let ghost prev = chunks_view(chunks@);
                        chunks.push(
                            ParseChunk { chunk: chunk_text, chunk_type: ParseChunkType::LuaValue },
                        );
                        proof {
                            assert(chunks_view(chunks@) =~= prev + seq![
                                ChunkModel { text: st.buf + loop_footer(), kind: ParseChunkType::LuaValue },
                            ]);
                        }
                    } else {
                        end_pending = true;
                    }
                }
            },
            Token::Literal(s) => {
                if in_loop {
                    if in_expr {
                        buf.append("table.insert(result,(");
                        buf.append(s.as_str());
                        buf.append("))\n");
                        proof {
                            assert(buf@ =~= st.buf + gen_expr_insert(s@));
                        }
                    } else if in_stmt {
                        let tr = trim_str(s.as_str());
                        buf.append(tr.as_str());
                        buf.append("\n");
                        proof {
                            assert(buf@ =~= st.buf + spec_trim(s@) + "\n"@);
                        }
                    } else {
                        buf.append("table.insert(result,[=====[");
                        buf.append(s.as_str());
                        buf.append("]=====])\n");
                        proof {
                            assert(buf@ =~= st.buf + gen_literal_insert(s@));
                        }
                    }
                } else if in_expr {
                    pending_expr = Some(s.clone());
                } else if in_stmt {
                    let tr = trim_str(s.as_str());
                    let opener = crate::text::str_starts_with(tr.as_str(), "for ")
                        || crate::text::str_starts_with(tr.as_str(), "if ")
                        || crate::text::str_starts_with(tr.as_str(), "while ");
                    if opener {
                        in_loop = true;
                        end_pending = false;
                        buf = String::from_str("result = {}\n");
                        buf.append(tr.as_str());
                        buf.append("\n");
                        proof {
                            assert(buf@ =~= gen_loop_header(spec_trim(s@)));
                        }
                    } else {
                        let chunk_text = s.clone();
                        let ghost prev = chunks_view(chunks@);
                        chunks.push(
                            ParseChunk {
                                chunk: chunk_text,
                                chunk_type: ParseChunkType::LuaController,
                            },
                        );
                        proof {
                            assert(chunks_view(chunks@) =~= prev + seq![
                                ChunkModel { text: s@, kind: ParseChunkType::LuaController },
                            ]);
                        }
                    }
                } else {
                    let chunk_text = s.clone();
                    let ghost prev = chunks_view(chunks@);
                    chunks.push(
                        ParseChunk { chunk: chunk_text, chunk_type: ParseChunkType::RawText },
                    );
                    proof {
                        assert(chunks_view(chunks@) =~= prev + seq![
                            ChunkModel { text: s@, kind: ParseChunkType::RawText },
                        ]);
                    }
                }
            },
        }
        proof {
            assert(classify_fold(ts.take(idx as int + 1)).1 =~= chunks_view(chunks@));
        }
        idx = idx + 1;
    }
    proof {
        assert(ts.take(tokens@.len() as int) =~= ts);
    }
    chunks
}

/// Tokenizes and classifies a whole source text.
pub fn classify_source(s: &str) -> (chunks: Vec<ParseChunk>)
    ensures
        chunks_view(chunks@) == spec_classify_source(s@),
{
    let tokens = collect_tokens(s);
    classify_tokens(&tokens)
}

} // verus!
