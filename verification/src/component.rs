//! The two pieces a page is made of: the rendered document in its wrapper, and
//! the style element for highlighted code.

use crate::error::outcome_view;
use crate::error::RenderError;
use crate::error::RenderErrorView;
use crate::highlight::Highlighter;
use crate::highlight::Highlights;
use crate::markup::attribute;
use crate::markup::element;
use crate::markup::markup_attribute_views;
use crate::markup::markup_views;
use crate::markup::no_attributes;
use crate::markup::no_nodes;
use crate::markup::push_attribute;
use crate::markup::push_node;
use crate::markup::MarkupNode;
use crate::markup::MarkupView;
use crate::node::Node;
use crate::node::NodeView;
use crate::render::render_node;
use crate::render::rendered;
use crate::render::RenderOptions;
use crate::text::trim_text;
use crate::text::trimmed;
use crate::text::without_leading_space;
use crate::text::without_trailing_space;
use vstd::prelude::*;

verus! {

/// The class of the wrapper: `markdown-content`, then a space and the
/// caller's class, trimmed of white space at both ends.
pub open spec fn wrapper_class(class: Option<Seq<char>>) -> Seq<char> {
    trimmed(
        "markdown-content "@ + match class {
            Some(c) => c,
            None => Seq::empty(),
        },
    )
}

/// Without a class of the caller's the wrapper has the class
/// `markdown-content` alone: the space after it is trimmed away.
pub proof fn lemma_wrapper_class_alone()
    ensures
        wrapper_class(None) == "markdown-content"@,
        wrapper_class(Some(Seq::empty())) == "markdown-content"@,
{
    reveal_strlit("markdown-content ");
    reveal_strlit("markdown-content");
    let full = "markdown-content "@;
    let base = "markdown-content"@;
    assert(full + Seq::<char>::empty() =~= full);
    assert(full.first() == 'm');
    assert(without_leading_space(full) == full);
    assert(full.last() == ' ');
    assert(full.drop_last() =~= base);
    assert(base.last() == 't');
    assert(without_trailing_space(base) == base);
    assert(without_trailing_space(full) == base);
}

/// The wrapper around rendered content: a `div` with the given class and the
/// content as its only child.
pub open spec fn wrapper_view(class: Seq<char>, content: MarkupView) -> MarkupView {
    MarkupView::Element {
        tag: "div"@,
        attributes: seq![("class"@, class)],
        children: seq![content],
    }
}

/// What [`Markdown`] returns: the wrapper around the markup of the document,
/// or the failure of rendering it.
pub open spec fn markdown_view(
    node: NodeView,
    class: Option<Seq<char>>,
    highlights: &Highlights,
    options: RenderOptions,
) -> Result<MarkupView, RenderErrorView> {
    match rendered(node, highlights, options) {
        Ok(content) => Ok(wrapper_view(wrapper_class(class), content)),
        Err(error) => Err(error),
    }
}

/// The style element: `style` around the stylesheet, taken as it is.
pub open spec fn style_view(css: Seq<char>) -> MarkupView {
    MarkupView::Element {
        tag: "style"@,
        attributes: Seq::empty(),
        children: seq![MarkupView::Raw { html: css }],
    }
}

/// Puts rendered content into the wrapper `div` with the given class.
pub fn wrap_content(class: String, content: MarkupNode) -> (wrapper: MarkupNode)
    ensures
        wrapper@ == wrapper_view(class@, content@),
{
    let mut attributes = no_attributes();
    push_attribute(&mut attributes, attribute("class", class));
    let mut children = no_nodes();
    push_node(&mut children, content);
    proof {
        assert(markup_attribute_views(attributes@) =~= seq![("class"@, class@)]);
        assert(markup_views(children@) =~= seq![content@]);
    }
    element("div", attributes, children)
}

/// Renders a parsed document into the wrapper `div` of a page. `class` is an
/// optional class of the caller's for the wrapper.
#[allow(non_snake_case)]
pub fn Markdown(
    node: &Node,
    class: &Option<String>,
    highlights: &Highlights,
    options: &RenderOptions,
) -> (outcome: Result<MarkupNode, RenderError>)
    ensures
        outcome_view(outcome) == markdown_view(node@, class.deep_view(), highlights, *options),
        outcome matches Ok(markup) ==> markup@.well_formed(),
{
    match render_node(node, highlights, options) {
        Ok(content) => {
            proof {
                let wrapper = wrapper_view(wrapper_class(class.deep_view()), content@);
                assert(wrapper.children()[0].well_formed());
                assert(wrapper.well_formed());
            }
            let mut full = String::from_str("markdown-content ");
            if let Some(c) = class {
                full.append(c.as_str());
            }
            proof {
                assert(full@ =~= "markdown-content "@ + match class.deep_view() {
                    Some(c) => c,
                    None => Seq::empty(),
                });
            }
            let class_text = trim_text(full.as_str());
            Ok(wrap_content(class_text, content))
        },
        Err(error) => Err(error),
    }
}

/// The style element that a page includes once for all its highlighted code.
#[allow(non_snake_case)]
pub fn SyntaxHighlightingStyle(highlighter: &Highlighter) -> (style: MarkupNode)
    ensures
        style@ == style_view(highlighter.stylesheet_text()),
{
    let mut children = no_nodes();
    push_node(&mut children, MarkupNode::Raw { html: String::from_str(highlighter.stylesheet()) });
    proof {
        assert(markup_views(children@) =~= seq![
            MarkupView::Raw { html: highlighter.stylesheet_text() },
        ]);
    }
    element("style", no_attributes(), children)
}

} // verus!
