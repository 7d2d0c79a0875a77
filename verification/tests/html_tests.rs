use asg::handle_html;
use asg::strip_html::strip_html;

#[test]
fn strip_html_test_strip_html() {
    let input = "<p>hello</p>";
    let result = strip_html(input);
    assert_eq!(result, "hello");
}

#[test]
fn strip_html_test_strip_scripts() {
    let input = "<script defer src=\"https://cdnjs.cloudflare.com/ajax/libs/highlight.js/11.5.1/languages/dockerfile.min.js\"></script>";
    let result = strip_html(input);
    assert_eq!(result, "");
}

#[test]
fn fast_strip_keeps_incomplete_tags() {
    assert_eq!(strip_html("a < b"), "a < b");
    assert_eq!(strip_html("a <b> c <d"), "a  c <d");
    assert_eq!(strip_html("<><>x"), "x");
}

#[test]
fn handle_html_test_strip_html() {
    let input = "<p>hello</p>";
    let result = handle_html::strip_html(input);
    assert_eq!(result, "hello");
}

#[test]
fn handle_html_test_strip_scripts() {
    let input = "<script defer src=\"https://cdnjs.cloudflare.com/ajax/libs/highlight.js/11.5.1/languages/dockerfile.min.js\"></script>";
    let result = handle_html::strip_html(input);
    assert_eq!(result, "");
}

#[test]
fn test_parse_html_headings() {
    let html = r#"
        <html>
            <head><title>Test Page</title></head>
            <body>
                <h1>Main Title</h1>
                <p>Some content</p>
                <h2>Subtitle 1</h2>
                <p>More content</p>
                <h3>Section 1.1</h3>
                <p>Even more content</p>
                <h2>Subtitle 2</h2>
                <h3>Section 2.1</h3>
            </body>
        </html>
    "#;

    let headings = handle_html::parse_html(html);

    assert_eq!(headings.len(), 5);
    assert_eq!(headings[0].rank, 1);
    assert_eq!(headings[0].text, "Main Title");
    assert_eq!(headings[1].rank, 2);
    assert_eq!(headings[1].text, "Subtitle 1");
    assert_eq!(headings[2].rank, 3);
    assert_eq!(headings[2].text, "Section 1.1");
    assert_eq!(headings[3].rank, 2);
    assert_eq!(headings[3].text, "Subtitle 2");
    assert_eq!(headings[4].rank, 3);
    assert_eq!(headings[4].text, "Section 2.1");
}

#[test]
fn test_parse_html_with_attributes() {
    let html = r#"
        <h1 class="title" id="main-title">Title with Attributes</h1>
        <h2 style="color: blue;">Blue Subtitle</h2>
    "#;

    let headings = handle_html::parse_html(html);

    assert_eq!(headings.len(), 2);
    assert_eq!(headings[0].rank, 1);
    assert_eq!(headings[0].text, "Title with Attributes");
    assert_eq!(headings[1].rank, 2);
    assert_eq!(headings[1].text, "Blue Subtitle");
}

#[test]
fn test_parse_html_with_nested_elements() {
    let html = "<h1>Title with <em>emphasis</em> and <strong>strong</strong> text</h1><h2>Subtitle with <a href=\"#\">link</a></h2>";

    let headings = handle_html::parse_html(html);

    assert_eq!(headings.len(), 2);
    assert_eq!(headings[0].rank, 1);
    assert_eq!(headings[0].text, "Title with emphasis and strong text");
    assert_eq!(headings[1].rank, 2);
    assert_eq!(headings[1].text, "Subtitle with link");
}

#[test]
fn test_highlight_syntax() {
    let sh = asg::highlight_syntax::SyntaxHighlighter::new();
    let code = "print(\"Hello, world!\")";
    let lang = "rs";
    let html = asg::highlight_syntax::highlight_syntax(&sh, code, lang);
    assert!(html.starts_with("<pre style="));
}

#[test]
fn unknown_language_returns_code_unchanged() {
    let sh = asg::highlight_syntax::SyntaxHighlighter::new();
    let code = "some text";
    let html = asg::highlight_syntax::highlight_syntax(&sh, code, "no-such-language");
    assert_eq!(html, code);
}
