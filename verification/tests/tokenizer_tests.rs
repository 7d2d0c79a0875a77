use asg::tokenizer::Token;
use asg::tokenizer::collect_tokens;
use asg::tokenizer::tokenize;

fn token_text(t: &Token) -> String {
    match t {
        Token::OpenExpr => "{{".to_string(),
        Token::CloseExpr => "}}".to_string(),
        Token::OpenStmt => "{%".to_string(),
        Token::CloseStmt => "%}".to_string(),
        Token::Literal(s) => s.clone(),
    }
}

#[test]
fn no_delimiters_single_literal() {
    let tokens = collect_tokens("hello, plain world");
    assert_eq!(tokens.len(), 1);
    assert!(matches!(&tokens[0], Token::Literal(s) if s == "hello, plain world"));
}

#[test]
fn expression_tokens() {
    let tokens = collect_tokens("{{x}}");
    assert_eq!(tokens.len(), 3);
    assert!(matches!(&tokens[0], Token::OpenExpr));
    assert!(matches!(&tokens[1], Token::Literal(s) if s == "x"));
    assert!(matches!(&tokens[2], Token::CloseExpr));
}

#[test]
fn statement_tokens() {
    let tokens = collect_tokens("{% y %}");
    assert_eq!(tokens.len(), 3);
    assert!(matches!(&tokens[0], Token::OpenStmt));
    assert!(matches!(&tokens[1], Token::Literal(s) if s == " y "));
    assert!(matches!(&tokens[2], Token::CloseStmt));
}

#[test]
fn concatenation_reproduces_source() {
    let sources = [
        "a{{b}}c{%d%}e",
        "{{}}{%%}",
        "text only",
        "{{x}} mixed {%y%} tail",
        "a{{b}}{{c}}d",
    ];
    for src in sources.iter() {
        let tokens = collect_tokens(src);
        let mut rebuilt = String::new();
        for t in tokens.iter() {
            rebuilt.push_str(&token_text(t));
        }
        assert_eq!(&rebuilt, src);
    }
}

#[test]
fn dangling_delimiters_are_tokens() {
    let tokens = collect_tokens("a{{");
    assert_eq!(tokens.len(), 2);
    assert!(matches!(&tokens[0], Token::Literal(s) if s == "a"));
    assert!(matches!(&tokens[1], Token::OpenExpr));

    let tokens = collect_tokens("{");
    assert_eq!(tokens.len(), 1);
    assert!(matches!(&tokens[0], Token::Literal(s) if s == "{"));

    let tokens = collect_tokens("{{{{");
    assert_eq!(tokens.len(), 2);
    assert!(matches!(&tokens[0], Token::OpenExpr));
    assert!(matches!(&tokens[1], Token::OpenExpr));
}

#[test]
fn lazy_scan_matches_collect() {
    let src = "a{{b}}c";
    let mut scan = tokenize(src);
    let mut scanned: Vec<Token> = Vec::new();
    while let Some(t) = scan.next() {
        scanned.push(t);
    }
    let collected = collect_tokens(src);
    assert_eq!(scanned.len(), collected.len());
    for (a, b) in scanned.iter().zip(collected.iter()) {
        assert_eq!(token_text(a), token_text(b));
    }
}

#[test]
fn empty_source_yields_no_tokens() {
    let tokens = collect_tokens("");
    assert_eq!(tokens.len(), 0);
    let mut scan = tokenize("");
    assert!(scan.next().is_none());
}

#[test]
fn scan_is_restartable() {
    let src = "x{%s%}y";
    let first = collect_tokens(src);
    let second = collect_tokens(src);
    assert_eq!(first.len(), second.len());
    for (a, b) in first.iter().zip(second.iter()) {
        assert_eq!(token_text(a), token_text(b));
    }
}
