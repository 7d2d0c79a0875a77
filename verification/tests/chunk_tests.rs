use asg::chunks::ParseChunkType;
use asg::chunks::classify_source;

#[test]
fn raw_text_only() {
    let chunks = classify_source("hello world");
    assert_eq!(chunks.len(), 1);
    assert_eq!(chunks[0].chunk_type, ParseChunkType::RawText);
    assert_eq!(chunks[0].chunk, "hello world");
}

#[test]
fn standalone_expression_becomes_return() {
    let chunks = classify_source("{{ 1+1 }}");
    assert_eq!(chunks.len(), 1);
    assert_eq!(chunks[0].chunk_type, ParseChunkType::LuaValue);
    assert_eq!(chunks[0].chunk, "return  1+1 ");
}

#[test]
fn standalone_statement_is_verbatim() {
    let chunks = classify_source("{% x = 1 %}");
    assert_eq!(chunks.len(), 1);
    assert_eq!(chunks[0].chunk_type, ParseChunkType::LuaController);
    assert_eq!(chunks[0].chunk, " x = 1 ");
}

#[test]
fn loop_unrolls_to_one_chunk() {
    let chunks = classify_source("{% for i=1,3 %}{{i}}{% end %}");
    assert_eq!(chunks.len(), 1);
    assert_eq!(chunks[0].chunk_type, ParseChunkType::LuaValue);
    assert_eq!(
        chunks[0].chunk,
        "result = {}\nfor i=1,3\ntable.insert(result,(i))\nend\nreturn table.concat(result)"
    );
}

#[test]
fn loop_body_literals_accumulate() {
    let chunks = classify_source("{% for i=1,2 do %}a{% end %}");
    assert_eq!(chunks.len(), 1);
    assert_eq!(chunks[0].chunk_type, ParseChunkType::LuaValue);
    assert_eq!(
        chunks[0].chunk,
        "result = {}\nfor i=1,2 do\ntable.insert(result,[=====[a]=====])\nend\nreturn table.concat(result)"
    );
}

#[test]
fn text_around_expression() {
    let chunks = classify_source("a{{ x }}b");
    assert_eq!(chunks.len(), 3);
    assert_eq!(chunks[0].chunk_type, ParseChunkType::RawText);
    assert_eq!(chunks[0].chunk, "a");
    assert_eq!(chunks[1].chunk_type, ParseChunkType::LuaValue);
    assert_eq!(chunks[1].chunk, "return  x ");
    assert_eq!(chunks[2].chunk_type, ParseChunkType::RawText);
    assert_eq!(chunks[2].chunk, "b");
}

#[test]
fn dangling_open_emits_nothing() {
    let chunks = classify_source("{{");
    assert_eq!(chunks.len(), 0);

    // An expression still open at the end of the input drops its pending
    // literal: the chunk is only emitted at the closing delimiter.
    let chunks = classify_source("{{ e");
    assert_eq!(chunks.len(), 0);

    let chunks = classify_source("a{{ e");
    assert_eq!(chunks.len(), 1);
    assert_eq!(chunks[0].chunk_type, ParseChunkType::RawText);
    assert_eq!(chunks[0].chunk, "a");

    let chunks = classify_source("{% for x do %}never closed");
    assert_eq!(chunks.len(), 0);
}

#[test]
fn if_and_while_open_blocks_too() {
    let chunks = classify_source("{% if x then %}y{% end %}");
    assert_eq!(chunks.len(), 1);
    assert_eq!(chunks[0].chunk_type, ParseChunkType::LuaValue);
    assert!(chunks[0].chunk.starts_with("result = {}\nif x then\n"));

    let chunks = classify_source("{% while x do %}y{% end %}");
    assert_eq!(chunks.len(), 1);
    assert!(chunks[0].chunk.starts_with("result = {}\nwhile x do\n"));
}
