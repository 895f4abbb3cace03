//! Why a document could not be rendered.

use crate::markup::MarkupNode;
use crate::markup::MarkupView;
use vstd::prelude::*;

verus! {

/// A failure of a render call. No markup is returned beside it.
#[derive(Debug, PartialEq, Eq)]
pub enum RenderError {
    /// The tree holds a construct that the renderer does not implement; `what`
    /// names the node kind or the tag.
    UnsupportedConstruct { what: String },
    /// The highlighter has no token markup for a code block, or could not
    /// write its stylesheet.
    HighlighterFatal,
}

/// A failure as a mathematical value.
pub ghost enum RenderErrorView {
    UnsupportedConstruct { what: Seq<char> },
    HighlighterFatal,
}

impl View for RenderError {
    type V = RenderErrorView;

    open spec fn view(&self) -> RenderErrorView {
        match self {
            RenderError::UnsupportedConstruct { what } => RenderErrorView::UnsupportedConstruct {
                what: what@,
            },
            RenderError::HighlighterFatal => RenderErrorView::HighlighterFatal,
        }
    }
}

/// The view of what a render call returns.
pub open spec fn outcome_view(outcome: Result<MarkupNode, RenderError>) -> Result<
    MarkupView,
    RenderErrorView,
> {
    match outcome {
        Ok(markup) => Ok(markup@),
        Err(error) => Err(error@),
    }
}

/// The wording of an error.
pub open spec fn message_of(error: RenderErrorView) -> Seq<char> {
    match error {
        RenderErrorView::UnsupportedConstruct { what } => "unsupported construct: "@ + what,
        RenderErrorView::HighlighterFatal => "the syntax highlighter failed"@,
    }
}

impl RenderError {
    /// The error in words.
    pub fn message(&self) -> (text: String)
        ensures
            text@ == message_of(self@),
    {
        match self {
            RenderError::UnsupportedConstruct { what } => {
                let mut text = String::from_str("unsupported construct: ");
                text.append(what.as_str());
                text
            },
            RenderError::HighlighterFatal => String::from_str("the syntax highlighter failed"),
        }
    }
}

} // verus!
