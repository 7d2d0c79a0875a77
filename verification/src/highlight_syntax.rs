//! Syntax highlighting of code blocks, with the code handed back unchanged
//! when the language is unknown or highlighting fails.

use vstd::prelude::*;
use vstd::string::StringExecFns;

verus! {

#[verifier::external_type_specification]
#[verifier::external_body]
pub struct ExSyntaxSet(syntect::parsing::SyntaxSet);

#[verifier::external_type_specification]
#[verifier::external_body]
pub struct ExThemeSet(syntect::highlighting::ThemeSet);

/// The loaded syntax definitions and colour themes. Only [`new`] constructs
/// one, so every value holds the default sets.
///
/// [`new`]: SyntaxHighlighter::new
pub struct SyntaxHighlighter {
    ps: syntect::parsing::SyntaxSet,
    ts: syntect::highlighting::ThemeSet,
}

/// Relies on syntect's SyntaxSet::load_defaults_newlines: the bundled syntax
/// definitions.
#[verifier::external_body]
fn load_default_syntaxes() -> syntect::parsing::SyntaxSet {
    syntect::parsing::SyntaxSet::load_defaults_newlines()
}

/// Relies on syntect's ThemeSet::load_defaults: the bundled colour themes.
#[verifier::external_body]
fn load_default_themes() -> syntect::highlighting::ThemeSet {
    syntect::highlighting::ThemeSet::load_defaults()
}

impl SyntaxHighlighter {
    /// Loads the bundled syntax definitions and colour themes.
    pub fn new() -> SyntaxHighlighter {
        SyntaxHighlighter { ps: load_default_syntaxes(), ts: load_default_themes() }
    }
}

/// Name for the highlighted HTML of given code in a given language, with the
/// default syntax definitions and the fixed theme: a function of the code
/// and the language alone.
pub uninterp spec fn highlighted_of(code: Seq<char>, lang: Seq<char>) -> Seq<char>;

/// Name for whether highlighting given code in a given language succeeds
/// (the language is known, the fixed theme present, highlighting error-free)
/// with the default sets: a function of the code and the language alone.
pub uninterp spec fn highlight_succeeds(code: Seq<char>, lang: Seq<char>) -> bool;

/// Relies on syntect's find_syntax_by_extension, the default theme table and
/// highlighted_html_for_string: highlighted HTML for the code, `None` when
/// the language is unknown, the fixed theme is missing or highlighting
/// fails; with the bundled default sets both the outcome and the HTML are
/// functions of the code and the language alone. Sound because every
/// [`SyntaxHighlighter`] holds the default sets.
#[verifier::external_body]
fn try_highlight(sh: &SyntaxHighlighter, code: &str, lang: &str) -> (r: Option<String>)
    ensures
        r is Some <==> highlight_succeeds(code@, lang@),
        r matches Some(h) ==> h@ == highlighted_of(code@, lang@),
{
    let syntax = sh.ps.find_syntax_by_extension(lang)?;
    let theme = sh.ts.themes.get("base16-ocean.dark")?;
    syntect::html::highlighted_html_for_string(code, &sh.ps, syntax, theme).ok()
}

/// Highlights code in the named language as HTML; the code comes back
/// unchanged when the language is unknown or highlighting fails.
pub fn highlight_syntax(sh: &SyntaxHighlighter, code: &str, lang: &str) -> (r: String)
    ensures
        r@ == if highlight_succeeds(code@, lang@) {
            highlighted_of(code@, lang@)
        } else {
            code@
        },
{
    match try_highlight(sh, code, lang) {
        Some(html) => html,
        None => String::from_str(code),
    }
}

} // verus!
