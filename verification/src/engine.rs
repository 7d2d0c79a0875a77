//! Chunk execution against the scripting engine.
//!
//! Chunks run strictly in order against one shared engine state: statements
//! for their side effects, expressions for a stringified result that replaces
//! the chunk. A failing chunk is recorded with its source fragment and the
//! compilation of the file goes on.

use vstd::prelude::*;
use vstd::string::StringExecFns;

use crate::chunks::ChunkModel;
use crate::chunks::ParseChunk;
use crate::chunks::ParseChunkType;
use crate::chunks::chunks_view;

verus! {

#[verifier::external_type_specification]
#[verifier::external_body]
pub struct ExLua(mlua::Lua);

/// What evaluating an expression chunk produced: the engine's text for the
/// value, or a null value or one that has no text.
pub enum LuaOutcome {
    Text(String),
    Null,
    Opaque,
}

/// Relies on mlua's Lua::load, Chunk::set_name and Chunk::exec: runs a
/// statement against the engine state for its side effects; a failure is
/// returned as its display text. Nothing is assumed of the engine's state or
/// behaviour.
#[verifier::external_body]
fn lua_exec(lua: &mlua::Lua, code: &str, chunk_name: &str) -> Result<(), String> {
    match lua.load(code).set_name(chunk_name).exec() {
        Ok(()) => Ok(()),
        Err(e) => Err(e.to_string()),
    }
}

/// Relies on mlua's Lua::load, Chunk::set_name and Chunk::call, and on
/// Value::to_string and Value::is_null: evaluates an expression against the
/// engine state and converts the resulting value to the outcome's plain
/// form; a failure is returned as its display text. Nothing is assumed of
/// the engine's state or behaviour.
#[verifier::external_body]
fn lua_eval(lua: &mlua::Lua, code: &str, chunk_name: &str) -> Result<LuaOutcome, String> {
    match lua.load(code).set_name(chunk_name).call::<mlua::Value>(()) {
        Ok(v) => match v.to_string() {
            Ok(d) => Ok(LuaOutcome::Text(d)),
            Err(_) => {
                if v.is_null() {
                    Ok(LuaOutcome::Null)
                } else {
                    Ok(LuaOutcome::Opaque)
                }
            },
        },
        Err(e) => Err(e.to_string()),
    }
}

/// The text an expression outcome contributes to the output: the value's
/// text, the word `nil` for a null value, and a fixed placeholder for a
/// value that has no text.
pub open spec fn outcome_text(o: LuaOutcome) -> Seq<char> {
    match o {
        LuaOutcome::Text(s) => s@,
        LuaOutcome::Null => "nil"@,
        LuaOutcome::Opaque => "<LUA VALUE>"@,
    }
}

/// Renders an expression outcome as the text appended to the output.
pub fn render_outcome(o: LuaOutcome) -> (r: String)
    ensures
        r@ == outcome_text(o),
{
    match o {
        LuaOutcome::Text(s) => s,
        LuaOutcome::Null => String::from_str("nil"),
        LuaOutcome::Opaque => String::from_str("<LUA VALUE>"),
    }
}

/// A chunk whose execution failed: the engine's message and the offending
/// source fragment.
pub struct ChunkError {
    pub message: String,
    pub fragment: String,
}

/// Concatenation of a sequence of texts.
pub open spec fn concat_all(fs: Seq<Seq<char>>) -> Seq<char>
    decreases fs.len(),
{
    if fs.len() == 0 {
        Seq::empty()
    } else {
        fs[0] + concat_all(fs.drop_first())
    }
}

pub proof fn lemma_concat_all_snoc(fs: Seq<Seq<char>>, x: Seq<char>)
    ensures
        concat_all(fs.push(x)) == concat_all(fs) + x,
    decreases fs.len(),
{
    if fs.len() == 0 {
        assert(fs.push(x).drop_first() =~= Seq::<Seq<char>>::empty());
        assert(concat_all(Seq::<Seq<char>>::empty()) =~= Seq::<char>::empty());
        assert(concat_all(fs.push(x)) =~= concat_all(fs) + x);
    } else {
        assert(fs.push(x).drop_first() =~= fs.drop_first().push(x));
        lemma_concat_all_snoc(fs.drop_first(), x);
        assert(concat_all(fs.push(x)) =~= concat_all(fs) + x);
    }
}

/// Does the error's recorded fragment read as the text of one of the chunks?
pub open spec fn fragment_matches(e: ChunkError, chunks: Seq<ChunkModel>) -> bool {
    exists|i: int| 0 <= i < chunks.len() && e.fragment@ == #[trigger] chunks[i].text
}

/// Every recorded error carries the text of one of the executed chunks as
/// its offending fragment.
pub open spec fn errors_from_chunks(errors: Seq<ChunkError>, chunks: Seq<ChunkModel>) -> bool {
    forall|j: int| 0 <= j < errors.len() ==> fragment_matches(#[trigger] errors[j], chunks)
}

/// What one chunk may contribute to the output: raw text contributes exactly
/// its text, a statement contributes nothing, and an expression contributes
/// whatever the engine evaluated it to.
pub open spec fn fill_ok(c: ChunkModel, f: Seq<char>) -> bool {
    match c.kind {
        ParseChunkType::RawText => f == c.text,
        ParseChunkType::LuaController => f == Seq::<char>::empty(),
        ParseChunkType::LuaValue => true,
    }
}

/// The output of an execution is the in-order concatenation of one
/// contribution per chunk, each as [`fill_ok`] allows.
pub open spec fn execution_fills(chunks: Seq<ChunkModel>, fills: Seq<Seq<char>>, output: Seq<char>) -> bool {
    fills.len() == chunks.len() && output == concat_all(fills) && (forall|i: int|
        0 <= i < chunks.len() ==> fill_ok(chunks[i], #[trigger] fills[i]))
}

/// Law: when every chunk is raw text, the execution output is exactly the
/// concatenation of the chunk texts, whatever the scripting engine did.
pub proof fn lemma_raw_only_output(chunks: Seq<ChunkModel>, fills: Seq<Seq<char>>, output: Seq<char>)
    requires
        execution_fills(chunks, fills, output),
        forall|i: int| 0 <= i < chunks.len() ==> #[trigger] chunks[i].kind == ParseChunkType::RawText,
    ensures
        output == concat_all(chunks.map_values(|c: ChunkModel| c.text)),
{
    assert(fills =~= chunks.map_values(|c: ChunkModel| c.text));
}

/// Executes classified chunks in program order against the engine state and
/// concatenates the output: raw text verbatim, statements for side effects
/// only, expressions by their stringified results. A failing chunk is
/// recorded with its fragment and contributes nothing; execution continues.
#[verifier::loop_isolation(false)]
pub fn execute_chunks(lua: &mlua::Lua, chunks: &Vec<ParseChunk>, chunk_name: &str) -> (r: (
    String,
    Vec<ChunkError>,
))
    ensures
        exists|fills: Seq<Seq<char>>| #[trigger] execution_fills(chunks_view(chunks@), fills, r.0@),
        errors_from_chunks(r.1@, chunks_view(chunks@)),
{
    let ghost cv = chunks_view(chunks@);
    let mut output = String::new();
    let mut errors: Vec<ChunkError> = Vec::new();
    let ghost mut fills: Seq<Seq<char>> = Seq::empty();
    let mut i: usize = 0;
    while i < chunks.len()
        invariant
            0 <= i <= cv.len(),
            cv == chunks_view(chunks@),
            fills.len() == i,
            output@ == concat_all(fills),
            forall|j: int| 0 <= j < i ==> fill_ok(cv[j], #[trigger] fills[j]),
            errors_from_chunks(errors@, cv),
        decreases cv.len() - i,
    {
        let chunk = &chunks[i];
        match chunk.chunk_type {
            ParseChunkType::RawText => {
                output.append(chunk.chunk.as_str());
                proof {
                    lemma_concat_all_snoc(fills, cv[i as int].text);
                    fills = fills.push(cv[i as int].text);
                }
            },
            ParseChunkType::LuaController => {
                let result = lua_exec(lua, chunk.chunk.as_str(), chunk_name);
                if let Err(message) = result {
                    let ghost prev = errors@;
                    errors.push(ChunkError { message, fragment: chunk.chunk.clone() });
                    proof {
                        assert(errors@.last().fragment@ == cv[i as int].text);
                        assert(fragment_matches(errors@.last(), cv));
                        assert forall|j: int| 0 <= j < errors@.len() implies fragment_matches(
                            #[trigger] errors@[j],
                            cv,
                        ) by {
                            if j < prev.len() {
                                assert(errors@[j] == prev[j]);
                            } else {
                                assert(errors@[j] == errors@.last());
                            }
                        }
                    }
                }
                proof {
                    lemma_concat_all_snoc(fills, Seq::<char>::empty());
                    assert(concat_all(fills) + Seq::<char>::empty() =~= concat_all(fills));
                    fills = fills.push(Seq::<char>::empty());
                }
            },
            ParseChunkType::LuaValue => {
                let result = lua_eval(lua, chunk.chunk.as_str(), chunk_name);
                match result {
                    Ok(outcome) => {
                        let piece = render_outcome(outcome);
                        let ghost pv = piece@;
                        output.append(piece.as_str());
                        proof {
                            lemma_concat_all_snoc(fills, pv);
                            fills = fills.push(pv);
                        }
                    },
                    Err(message) => {
                        let ghost prev = errors@;
                        errors.push(ChunkError { message, fragment: chunk.chunk.clone() });
                        proof {
                            assert(errors@.last().fragment@ == cv[i as int].text);
                            assert(fragment_matches(errors@.last(), cv));
                            assert forall|j: int| 0 <= j < errors@.len() implies fragment_matches(
                                #[trigger] errors@[j],
                                cv,
                            ) by {
                                if j < prev.len() {
                                    assert(errors@[j] == prev[j]);
                                } else {
                                    assert(errors@[j] == errors@.last());
                                }
                            }
                            lemma_concat_all_snoc(fills, Seq::<char>::empty());
                            assert(concat_all(fills) + Seq::<char>::empty() =~= concat_all(fills));
                            fills = fills.push(Seq::<char>::empty());
                        }
                    },
                }
            },
        }
        i = i + 1;
    }
    let result = (output, errors);
    proof {
        assert(execution_fills(chunks_view(chunks@), fills, result.0@));
        assert(exists|f: Seq<Seq<char>>|
            #[trigger] execution_fills(chunks_view(chunks@), f, result.0@));
    }
    result
}

} // verus!
