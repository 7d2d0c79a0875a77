use asg::cache::ParsingCache;
use asg::chunks::classify_source;
use asg::compile::LayoutDecision;
use asg::compile::clip_fragment;
use asg::compile::layout_decision;
use asg::compile::render_markdown_stage;
use asg::engine::LuaOutcome;
use asg::engine::execute_chunks;
use asg::engine::render_outcome;
use asg::metadata::derive_metadata;
use asg::metadata::get_destination_url;
use asg::metadata::make_file_info;

#[test]
fn value_expression_evaluates() {
    // A standalone expression compiles to one generated chunk that evaluates
    // to "2".
    let chunks = classify_source("{{ 1+1 }}");
    assert_eq!(chunks.len(), 1);
    let lua = mlua::Lua::new();
    let (output, errors) = execute_chunks(&lua, &chunks, "@test");
    assert_eq!(output, "2");
    assert_eq!(errors.len(), 0);
}

#[test]
fn unrolled_loop_evaluates() {
    // The block form of the loop clause is the engine's own syntax.
    let chunks = classify_source("{% for i=1,3 do %}{{i}}{% end %}");
    assert_eq!(chunks.len(), 1);
    let lua = mlua::Lua::new();
    let (output, errors) = execute_chunks(&lua, &chunks, "@test");
    assert_eq!(output, "123");
    assert_eq!(errors.len(), 0);
}

#[test]
fn raw_chunks_pass_through() {
    let chunks = classify_source("hello world");
    let lua = mlua::Lua::new();
    let (output, errors) = execute_chunks(&lua, &chunks, "@test");
    assert_eq!(output, "hello world");
    assert_eq!(errors.len(), 0);
}

#[test]
fn statements_set_state_for_later_chunks() {
    let chunks = classify_source("{% x = 7 %}{{ x }}");
    assert_eq!(chunks.len(), 2);
    let lua = mlua::Lua::new();
    let (output, errors) = execute_chunks(&lua, &chunks, "@test");
    assert_eq!(output, "7");
    assert_eq!(errors.len(), 0);
}

#[test]
fn null_expression_prints_nil() {
    let chunks = classify_source("{{ nil }}");
    let lua = mlua::Lua::new();
    let (output, _) = execute_chunks(&lua, &chunks, "@test");
    assert_eq!(output, "nil");
}

#[test]
fn failing_statement_is_recorded_and_skipped() {
    let chunks = classify_source("{% this is not a statement %}after");
    let lua = mlua::Lua::new();
    let (output, errors) = execute_chunks(&lua, &chunks, "@test");
    assert_eq!(output, "after");
    assert_eq!(errors.len(), 1);
    assert_eq!(errors[0].fragment, " this is not a statement ");
    assert!(!errors[0].message.is_empty());
}

#[test]
fn outcome_rendering_policy() {
    assert_eq!(render_outcome(LuaOutcome::Text("x".to_string())), "x");
    assert_eq!(render_outcome(LuaOutcome::Null), "nil");
    assert_eq!(render_outcome(LuaOutcome::Opaque), "<LUA VALUE>");
}

#[test]
fn markup_stage_renders_headings() {
    let (html, err) = render_markdown_stage(true, "# Hello".to_string());
    assert!(err.is_none());
    assert!(html.contains("<h1>"));
    assert!(html.contains("Hello"));
}

#[test]
fn markup_stage_skips_other_formats() {
    let (out, err) = render_markdown_stage(false, "# Hello".to_string());
    assert!(err.is_none());
    assert_eq!(out, "# Hello");
}

#[test]
fn layout_cycle_is_detected_and_terminates() {
    // Two files each configured as the other's layout: the chain must end in
    // a reported cycle instead of recursing forever.
    let layout_of = |p: &str| -> Option<String> {
        if p == "a.html" {
            Some("b.html".to_string())
        } else {
            Some("a.html".to_string())
        }
    };
    let mut stack: Vec<String> = Vec::new();
    let mut current = "a.html".to_string();
    let mut steps = 0;
    let mut cycle_reported = false;
    loop {
        stack.push(current.clone());
        steps += 1;
        assert!(steps <= 3, "layout recursion failed to terminate");
        match layout_decision(&stack, &layout_of(&current)) {
            LayoutDecision::NoLayout => break,
            LayoutDecision::Cycle => {
                cycle_reported = true;
                break;
            },
            LayoutDecision::Include(next) => {
                current = next;
            },
        }
    }
    assert!(cycle_reported);
    assert_eq!(stack, vec!["a.html".to_string(), "b.html".to_string()]);
}

#[test]
fn layout_decisions() {
    let stack = vec!["a.html".to_string()];
    assert!(matches!(layout_decision(&stack, &None), LayoutDecision::NoLayout));
    assert!(matches!(
        layout_decision(&stack, &Some(String::new())),
        LayoutDecision::NoLayout
    ));
    assert!(matches!(
        layout_decision(&stack, &Some("a.html".to_string())),
        LayoutDecision::Cycle
    ));
    assert!(matches!(
        layout_decision(&stack, &Some("layout.html".to_string())),
        LayoutDecision::Include(p) if p == "layout.html"
    ));
}

#[test]
fn fragments_are_clipped_for_display() {
    assert_eq!(clip_fragment("abcdef", 4), "abcd");
    assert_eq!(clip_fragment("ab", 4), "ab");
    assert_eq!(clip_fragment("", 4), "");
}

#[test]
fn version_falls_back_to_branch() {
    assert_eq!(asg::buildinfo::get_asg_version(), "main");
}

#[test]
fn end_to_end_two_stage_compile() {
    // post.md: a heading and an expression, no layout, empty tags value.
    let source = "# Hello\n{{ 1+1 }}";
    let mut cache = ParsingCache::new();
    let rel = "posts/post.md".to_string();
    let resolved = "/site/posts/post.md".to_string();
    let pp = asg::cache::tokenize_file(&mut cache, &resolved, &source.to_string(), 10, 0);

    let lua = mlua::Lua::new();
    let (raw, errors) = execute_chunks(&lua, &pp.chunks, "@post.md");
    assert_eq!(errors.len(), 0);
    assert_eq!(raw, "# Hello\n2");

    let (html, render_err) = render_markdown_stage(true, raw);
    assert!(render_err.is_none());
    assert!(html.contains("<h1>"));
    assert!(html.contains("Hello"));
    assert!(html.contains('2'));

    let stripped = asg::handle_html::strip_html(&html);
    let derived = derive_metadata(&stripped, &None, &None, &Some(String::new()));
    assert!(derived.word_count >= 2);
    assert_eq!(derived.tags, vec![String::new()]);

    let url = get_destination_url(&resolved, "/site");
    assert_eq!(url, "./posts/post.html");

    let info = make_file_info(
        derived,
        resolved.clone(),
        url,
        0,
        String::new(),
        String::new(),
        String::new(),
    );
    assert!(info.word_count >= 2);
    assert_eq!(info.tags, vec![String::new()]);
    assert_eq!(info.title, "Hello");

    cache.record_file_info(&rel, info);
    let recorded = cache.file_info(&rel).expect("metadata recorded");
    assert!(recorded.word_count >= 2);
    assert_eq!(recorded.tags, vec![String::new()]);
}
