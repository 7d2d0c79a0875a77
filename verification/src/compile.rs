//! The composition stages of compiling one file: markup rendering, layout
//! resolution with cycle detection, and error-fragment clipping.

use vstd::prelude::*;
use vstd::string::StrSliceExecFns;
use vstd::string::StringExecFns;

use crate::text::strings_view;

verus! {

/// Name for what the markup renderer returns on given text, with the
/// dangerous-HTML and dangerous-protocol options on: a function of the text
/// alone.
pub uninterp spec fn md_html_of(s: Seq<char>) -> Seq<char>;

/// Relies on markdown's to_html_with_options, with the GFM options,
/// dangerous HTML and protocols allowed and the tag filter off: the rendered
/// HTML depends on the input text alone. With these options the call always
/// succeeds: the renderer's error states are constructed only in its MDX
/// constructs, which the GFM options leave off.
#[verifier::external_body]
fn md_to_html(s: &str) -> (r: Result<String, String>)
    ensures
        r is Ok,
        r matches Ok(h) ==> h@ == md_html_of(s@),
{
    let mut options = markdown::Options::gfm();
    options.compile.allow_dangerous_html = true;
    options.compile.allow_dangerous_protocol = true;
    options.compile.gfm_tagfilter = false;
    match markdown::to_html_with_options(s, &options) {
        Ok(h) => Ok(h),
        Err(e) => Err(e.to_string()),
    }
}

/// Renders the compiled text as markup when the file's format is the
/// lightweight-markup one. A renderer failure would keep the text unrendered
/// and hand the error back for reporting; with this renderer and these
/// options none occurs, so a markup file always comes back rendered.
pub fn render_markdown_stage(is_markup: bool, text: String) -> (r: (String, Option<String>))
    ensures
        !is_markup ==> r.0 == text && r.1 is None,
        is_markup ==> r.1 is None && r.0@ == md_html_of(text@),
{
    if !is_markup {
        return (text, None);
    }
    match md_to_html(text.as_str()) {
        Ok(h) => (h, None),
        Err(e) => (text, Some(e)),
    }
}

/// What to do about a configured layout: nothing, abandon the inclusion as a
/// cycle, or include the named file.
pub enum LayoutDecision {
    NoLayout,
    Cycle,
    Include(String),
}

/// Mathematical model of a [`LayoutDecision`].
pub enum LayoutDecisionModel {
    NoLayout,
    Cycle,
    Include(Seq<char>),
}

impl View for LayoutDecision {
    type V = LayoutDecisionModel;

    open spec fn view(&self) -> LayoutDecisionModel {
        match self {
            LayoutDecision::NoLayout => LayoutDecisionModel::NoLayout,
            LayoutDecision::Cycle => LayoutDecisionModel::Cycle,
            LayoutDecision::Include(p) => LayoutDecisionModel::Include(p@),
        }
    }
}

/// The layout action for a configured layout name against the stack of files
/// already being composed: no action without a non-empty name, a cycle when
/// the name is already on the stack, otherwise its inclusion.
pub open spec fn spec_layout_decision(stack: Seq<Seq<char>>, layout: Option<Seq<char>>) -> LayoutDecisionModel {
    match layout {
        None => LayoutDecisionModel::NoLayout,
        Some(l) => if l.len() == 0 {
            LayoutDecisionModel::NoLayout
        } else if exists|i: int| 0 <= i < stack.len() && stack[i] == l {
            LayoutDecisionModel::Cycle
        } else {
            LayoutDecisionModel::Include(l)
        },
    }
}

/// Law: a non-empty configured layout that is already on the recursion stack
/// is reported as a cycle, never included.
pub proof fn lemma_cycle_reported(stack: Seq<Seq<char>>, l: Seq<char>, i: int)
    requires
        l.len() > 0,
        0 <= i < stack.len(),
        stack[i] == l,
    ensures
        spec_layout_decision(stack, Some(l)) == LayoutDecisionModel::Cycle,
{
}

/// Law: an included layout is never already on the stack; with it pushed,
/// a stack of pairwise distinct paths stays pairwise distinct, so a layout
/// chain never revisits a file and its depth is bounded by the number of
/// distinct files.
pub proof fn lemma_include_is_new(stack: Seq<Seq<char>>, l: Seq<char>)
    requires
        spec_layout_decision(stack, Some(l)) == LayoutDecisionModel::Include(l),
        forall|i: int, j: int|
            0 <= i < j < stack.len() ==> stack[i] != stack[j],
    ensures
        forall|i: int| 0 <= i < stack.len() ==> stack[i] != l,
        forall|i: int, j: int|
            0 <= i < j < stack.push(l).len() ==> stack.push(l)[i] != stack.push(l)[j],
{
    assert forall|i: int| 0 <= i < stack.len() implies stack[i] != l by {
        if stack[i] == l {
            assert(spec_layout_decision(stack, Some(l)) == LayoutDecisionModel::Cycle);
        }
    }
}

/// Decides what to do about a configured layout name, given the recursion
/// stack of resolved paths already being composed.
#[verifier::loop_isolation(false)]
pub fn layout_decision(recursion_path: &Vec<String>, layout: &Option<String>) -> (d: LayoutDecision)
    ensures
        d@ == spec_layout_decision(
            strings_view(recursion_path@),
            match layout {
                Some(l) => Some(l@),
                None => None,
            },
        ),
{
    let l = match layout {
        Some(l) => l,
        None => {
            return LayoutDecision::NoLayout;
        },
    };
    if l.as_str().unicode_len() == 0 {
        return LayoutDecision::NoLayout;
    }
    let mut i: usize = 0;
    while i < recursion_path.len()
        invariant
            0 <= i <= recursion_path@.len(),
            forall|j: int| 0 <= j < i ==> strings_view(recursion_path@)[j] != l@,
        decreases recursion_path@.len() - i,
    {
        if recursion_path[i].eq(l) {
            proof {
                assert(strings_view(recursion_path@)[i as int] == l@);
            }
            return LayoutDecision::Cycle;
        }
        i = i + 1;
    }
    LayoutDecision::Include(l.clone())
}

/// Clips an error's source fragment to at most `limit` characters for
/// display.
pub fn clip_fragment(code: &str, limit: usize) -> (r: String)
    ensures
        r@ == if code@.len() > limit {
            code@.subrange(0, limit as int)
        } else {
            code@
        },
{
    let len = code.unicode_len();
    if len > limit {
        code.substring_char(0, limit).to_owned()
    } else {
        code.to_owned()
    }
}

} // verus!
