//! The renderer: from a document node to markup.

use crate::error::outcome_view;
use crate::error::RenderError;
use crate::error::RenderErrorView;
use crate::guarantees::lemma_rendered_well_formed;
use crate::highlight::legacy_code_block;
use crate::highlight::legacy_code_block_view;
use crate::highlight::Highlights;
use crate::markup::attribute;
use crate::markup::element;
use crate::markup::literal_attribute;
use crate::markup::markup_attribute_views;
use crate::markup::markup_views;
use crate::markup::no_attributes;
use crate::markup::no_nodes;
use crate::markup::optional_attribute;
use crate::markup::push_attribute;
use crate::markup::push_node;
use crate::markup::text_node;
use crate::markup::MarkupAttribute;
use crate::markup::MarkupNode;
use crate::markup::MarkupView;
use crate::node::attribute_views;
use crate::node::node_views;
use crate::node::Attribute;
use crate::node::AttributeValue;
use crate::node::AttributeValueView;
use crate::node::AttributeView;
use crate::node::Node;
use crate::node::NodeView;
use crate::text::lowercased;
use crate::text::same_text;
use vstd::prelude::*;

verus! {

/// How a code block is rendered.
#[derive(Clone, Copy, Debug, PartialEq, Eq, Structural)]
pub enum CodeMode {
    /// The token markup of the engine, one class per scope, in the elements
    /// of a highlighted block. The canonical form.
    Highlighted,
    /// `pre` around `code` with the code as text and a `language-` class.
    Legacy,
}

/// The choices a caller makes for a render call.
#[derive(Clone, Copy, Debug, PartialEq, Eq, Structural)]
pub struct RenderOptions {
    /// Fail on a construct that is not implemented. Where it is off, such a
    /// node becomes a placeholder, and a custom element with an attribute of
    /// expression form is rendered without what that attribute asks for.
    pub strict: bool,
    pub code_mode: CodeMode,
}

impl Default for RenderOptions {
    /// Strict, with highlighted code blocks.
    fn default() -> (options: RenderOptions)
        ensures
            options == (RenderOptions { strict: true, code_mode: CodeMode::Highlighted }),
    {
        RenderOptions { strict: true, code_mode: CodeMode::Highlighted }
    }
}

/// The level of a heading of the given depth: the depth, held within 1 to 6.
pub open spec fn heading_level(depth: u8) -> int {
    if depth < 1 {
        1
    } else if depth > 6 {
        6
    } else {
        depth as int
    }
}

/// The tag of a heading of the given depth.
pub open spec fn heading_tag(depth: u8) -> Seq<char> {
    if heading_level(depth) == 1 {
        "h1"@
    } else if heading_level(depth) == 2 {
        "h2"@
    } else if heading_level(depth) == 3 {
        "h3"@
    } else if heading_level(depth) == 4 {
        "h4"@
    } else if heading_level(depth) == 5 {
        "h5"@
    } else {
        "h6"@
    }
}

/// What the first `class` or `className` property with a value asks for: its
/// text where the value is literal, a failure that names the property where
/// the value is an expression, which is never evaluated. No class where no
/// property sets one.
pub open spec fn class_of(attributes: Seq<AttributeView>) -> Result<
    Option<Seq<char>>,
    RenderErrorView,
>
    decreases attributes.len(),
{
    if attributes.len() == 0 {
        Ok(None)
    } else {
        match attributes[0] {
            AttributeView::Property { name, value: Some(value) } => {
                if name == "class"@ || name == "className"@ {
                    match value {
                        AttributeValueView::Literal(text) => Ok(Some(text)),
                        AttributeValueView::Expression(_) => Err(
                            RenderErrorView::UnsupportedConstruct { what: name },
                        ),
                    }
                } else {
                    class_of(attributes.drop_first())
                }
            },
            _ => class_of(attributes.drop_first()),
        }
    }
}

/// The class that an element gets when a class of expression form is
/// tolerated: none in its place.
pub open spec fn tolerated_class(attributes: Seq<AttributeView>) -> Option<Seq<char>> {
    match class_of(attributes) {
        Ok(class) => class,
        Err(_) => None,
    }
}

/// The view of what [`get_class_from_attributes`] returns.
pub open spec fn class_outcome_view(outcome: Result<Option<String>, RenderError>) -> Result<
    Option<Seq<char>>,
    RenderErrorView,
> {
    match outcome {
        Ok(class) => Ok(class.deep_view()),
        Err(error) => Err(error@),
    }
}

/// Whether an attribute is of expression form: an expression in place of a
/// property, or a property whose value is an expression.
pub open spec fn is_expression(attribute: AttributeView) -> bool {
    match attribute {
        AttributeView::Expression { .. } => true,
        AttributeView::Property { value: Some(AttributeValueView::Expression(_)), .. } => true,
        _ => false,
    }
}

/// Whether a list holds an attribute of expression form.
pub open spec fn has_expression(attributes: Seq<AttributeView>) -> bool {
    exists|i: int| 0 <= i < attributes.len() && is_expression(#[trigger] attributes[i])
}

/// The tags of the registry that map to the element of the same name.
pub open spec fn is_plain_tag(lowered: Seq<char>) -> bool {
    ||| lowered == "div"@
    ||| lowered == "span"@
    ||| lowered == "p"@
    ||| lowered == "article"@
    ||| lowered == "section"@
    ||| lowered == "h1"@
}

/// The tag under which a custom element is looked up: its name, or `span`
/// where it has none.
pub open spec fn tag_name(name: Option<Seq<char>>) -> Seq<char> {
    match name {
        Some(n) => n,
        None => "span"@,
    }
}

/// The element for a custom tag. `lowered` is the lower-cased name, `name` the
/// name as written. A plain tag of the registry gives the element of that name
/// with the class; `custom-alert` gives its fixed two-level wrapper, whatever
/// the class; any other name gives a `div` marked as unknown that records
/// `name` in `data-element-type`.
pub open spec fn element_for_tag_view(
    lowered: Seq<char>,
    name: Seq<char>,
    class: Option<Seq<char>>,
    children: Seq<MarkupView>,
) -> MarkupView {
    if is_plain_tag(lowered) {
        MarkupView::Element {
            tag: lowered,
            attributes: optional_attribute("class"@, class),
            children,
        }
    } else if lowered == "custom-alert"@ {
        MarkupView::Element {
            tag: "div"@,
            attributes: seq![("class"@, "custom-alert"@)],
            children: seq![
                MarkupView::Element {
                    tag: "div"@,
                    attributes: seq![("class"@, "alert-content"@)],
                    children,
                },
            ],
        }
    } else {
        MarkupView::Element {
            tag: "div"@,
            attributes: seq![("class"@, "unknown-element"@), ("data-element-type"@, name)],
            children,
        }
    }
}

/// An element around rendered children, or the error of the children.
pub open spec fn wrapped(
    tag: Seq<char>,
    attributes: Seq<(Seq<char>, Seq<char>)>,
    children: Result<Seq<MarkupView>, RenderErrorView>,
) -> Result<MarkupView, RenderErrorView> {
    match children {
        Ok(content) => Ok(MarkupView::Element { tag, attributes, children: content }),
        Err(error) => Err(error),
    }
}

/// What [`create_element`] returns, given the outcome of rendering the
/// children. With strictness on, an attribute of expression form fails the
/// call with the element's name, whatever the children are.
pub open spec fn created_element(
    attributes: Seq<AttributeView>,
    children: Result<Seq<MarkupView>, RenderErrorView>,
    name: Seq<char>,
    options: RenderOptions,
) -> Result<MarkupView, RenderErrorView> {
    if options.strict && has_expression(attributes) {
        Err(RenderErrorView::UnsupportedConstruct { what: name })
    } else {
        match children {
            Ok(content) => Ok(
                element_for_tag_view(lowercased(name), name, tolerated_class(attributes), content),
            ),
            Err(error) => Err(error),
        }
    }
}

/// The markup of an image: `src`, then `alt`, which is empty where the node
/// has none, then `title` where the node has one.
pub open spec fn image_view(url: Seq<char>, alt: Option<Seq<char>>, title: Option<Seq<char>>)
    -> MarkupView {
    MarkupView::Element {
        tag: "img"@,
        attributes: seq![
            ("src"@, url),
            (
                "alt"@,
                match alt {
                    Some(a) => a,
                    None => Seq::empty(),
                },
            ),
        ] + optional_attribute("title"@, title),
        children: Seq::empty(),
    }
}

/// The attributes of a link: `href`, then `title` where the node has one.
pub open spec fn link_attributes(url: Seq<char>, title: Option<Seq<char>>) -> Seq<
    (Seq<char>, Seq<char>),
> {
    seq![("href"@, url)] + optional_attribute("title"@, title)
}

/// What stands for a node that is not implemented when strictness is off.
pub open spec fn placeholder_view() -> MarkupView {
    MarkupView::Element {
        tag: "span"@,
        attributes: Seq::empty(),
        children: seq![MarkupView::Text { value: "Unsupported node type"@ }],
    }
}

/// The markup of a node.
///
/// A container becomes its element around the rendered children, the root a
/// fragment of them. A code block gets the token markup that the table of
/// highlights holds for it, and fails where the table holds none, or takes its
/// legacy form, as the options say. A custom element is dispatched by its name. With
/// strictness on, a node that is not implemented fails with its kind, and a
/// custom element with an attribute of expression form fails with its tag.
/// The first failure in document order is the failure of the whole.
pub open spec fn rendered(node: NodeView, highlights: &Highlights, options: RenderOptions)
    -> Result<MarkupView, RenderErrorView>
    decreases node,
{
    match node {
        NodeView::Root { children } => match rendered_all(children, highlights, options) {
            Ok(content) => Ok(MarkupView::Fragment { children: content }),
            Err(error) => Err(error),
        },
        NodeView::Paragraph { children } => wrapped(
            "p"@,
            Seq::empty(),
            rendered_all(children, highlights, options),
        ),
        NodeView::Blockquote { children } => wrapped(
            "blockquote"@,
            Seq::empty(),
            rendered_all(children, highlights, options),
        ),
        NodeView::Strong { children } => wrapped(
            "strong"@,
            Seq::empty(),
            rendered_all(children, highlights, options),
        ),
        NodeView::Emphasis { children } => wrapped(
            "em"@,
            Seq::empty(),
            rendered_all(children, highlights, options),
        ),
        NodeView::Heading { depth, children } => wrapped(
            heading_tag(depth),
            Seq::empty(),
            rendered_all(children, highlights, options),
        ),
        NodeView::Text { value } => Ok(MarkupView::Text { value }),
        NodeView::InlineCode { value } => Ok(
            MarkupView::Element {
                tag: "code"@,
                attributes: Seq::empty(),
                children: seq![MarkupView::Text { value }],
            },
        ),
        NodeView::Code { value, lang, meta } => match options.code_mode {
            CodeMode::Highlighted => highlights.highlighted(value, lang, meta),
            CodeMode::Legacy => Ok(legacy_code_block_view(value, lang)),
        },
        NodeView::Break => Ok(
            MarkupView::Element { tag: "br"@, attributes: Seq::empty(), children: Seq::empty() },
        ),
        NodeView::Image { url, alt, title } => Ok(image_view(url, alt, title)),
        NodeView::Link { url, title, children } => wrapped(
            "a"@,
            link_attributes(url, title),
            rendered_all(children, highlights, options),
        ),
        NodeView::Table { children } => wrapped(
            "table"@,
            seq![("style"@, "text-align: initial;"@)],
            rendered_all(children, highlights, options),
        ),
        NodeView::TableRow { children } => wrapped(
            "tr"@,
            Seq::empty(),
            rendered_all(children, highlights, options),
        ),
        NodeView::TableCell { children } => wrapped(
            "td"@,
            Seq::empty(),
            rendered_all(children, highlights, options),
        ),
        NodeView::CustomElement { name, attributes, children } => created_element(
            attributes,
            rendered_all(children, highlights, options),
            tag_name(name),
            options,
        ),
        NodeView::Unsupported { kind } => {
            if options.strict {
                Err(RenderErrorView::UnsupportedConstruct { what: kind })
            } else {
                Ok(placeholder_view())
            }
        },
    }
}

/// The markup of a run of nodes, in their order, or the first failure among
/// them.
pub open spec fn rendered_all(
    nodes: Seq<NodeView>,
    highlights: &Highlights,
    options: RenderOptions,
) -> Result<Seq<MarkupView>, RenderErrorView>
    decreases nodes,
{
    if nodes.len() == 0 {
        Ok(Seq::empty())
    } else {
        match rendered_all(nodes.drop_last(), highlights, options) {
            Err(error) => Err(error),
            Ok(content) => match rendered(nodes.last(), highlights, options) {
                Err(error) => Err(error),
                Ok(markup) => Ok(content.push(markup)),
            },
        }
    }
}

/// The view of what rendering a run of nodes returns.
pub open spec fn content_view(outcome: Result<Vec<MarkupNode>, RenderError>) -> Result<
    Seq<MarkupView>,
    RenderErrorView,
> {
    match outcome {
        Ok(content) => Ok(markup_views(content@)),
        Err(error) => Err(error@),
    }
}

/// Once a prefix of a run fails, the run fails in the same way.
pub proof fn lemma_failure_stays(
    nodes: Seq<NodeView>,
    highlights: &Highlights,
    options: RenderOptions,
    k: int,
)
    requires
        0 <= k <= nodes.len(),
        rendered_all(nodes.take(k), highlights, options) is Err,
    ensures
        rendered_all(nodes, highlights, options) == rendered_all(
            nodes.take(k),
            highlights,
            options,
        ),
    decreases nodes.len() - k,
{
    if k < nodes.len() {
        assert(nodes.take(k + 1).drop_last() == nodes.take(k));
        lemma_failure_stays(nodes, highlights, options, k + 1);
    } else {
        assert(nodes.take(k) == nodes);
    }
}

/// The name of the heading element for a depth.
pub fn heading_tag_name(depth: u8) -> (tag: &'static str)
    ensures
        tag@ == heading_tag(depth),
{
    if depth <= 1 {
        "h1"
    } else if depth == 2 {
        "h2"
    } else if depth == 3 {
        "h3"
    } else if depth == 4 {
        "h4"
    } else if depth == 5 {
        "h5"
    } else {
        "h6"
    }
}

/// The class that a custom element asks for: the value of its first `class`
/// or `className` property that has one. A literal value is the class; a
/// value of expression form is not evaluated and fails the call with the
/// attribute's name.
pub fn get_class_from_attributes(attributes: &Vec<Attribute>) -> (class: Result<
    Option<String>,
    RenderError,
>)
    ensures
        class_outcome_view(class) == class_of(attribute_views(attributes@)),
{
    let ghost all = attribute_views(attributes@);
    let mut i: usize = 0;
    proof {
        assert(all.skip(0) == all);
    }
    while i < attributes.len()
        invariant
            i <= attributes.len(),
            all == attribute_views(attributes@),
            class_of(all) == class_of(all.skip(i as int)),
        decreases attributes.len() - i,
    {
        proof {
            assert(all.skip(i as int)[0] == attributes[i as int]@);
            assert(all.skip(i as int).drop_first() == all.skip(i + 1));
        }
        match &attributes[i] {
            Attribute::Property { name, value: Some(value) } => {
                if same_text(name.as_str(), "class") || same_text(name.as_str(), "className") {
                    return match value {
                        AttributeValue::Literal(text) => Ok(Some(text.clone())),
                        AttributeValue::Expression(_) => Err(
                            RenderError::UnsupportedConstruct { what: name.clone() },
                        ),
                    };
                }
            },
            _ => {},
        }
        i += 1;
    }
    Ok(None)
}

/// Whether a custom element carries an attribute of expression form.
pub fn has_expression_attribute(attributes: &Vec<Attribute>) -> (found: bool)
    ensures
        found == has_expression(attribute_views(attributes@)),
{
    let ghost all = attribute_views(attributes@);
    let mut i: usize = 0;
    while i < attributes.len()
        invariant
            i <= attributes.len(),
            all == attribute_views(attributes@),
            forall|j: int| 0 <= j < i ==> !is_expression(#[trigger] all[j]),
        decreases attributes.len() - i,
    {
        let expression = match &attributes[i] {
            Attribute::Expression { .. } => true,
            Attribute::Property { value: Some(AttributeValue::Expression(_)), .. } => true,
            _ => false,
        };
        if expression {
            proof {
                assert(is_expression(all[i as int]));
            }
            return true;
        }
        i += 1;
    }
    false
}

/// Whether a lower-cased tag is one of the plain tags of the registry.
pub fn is_registered_plain_tag(lowered: &str) -> (plain: bool)
    ensures
        plain == is_plain_tag(lowered@),
{
    same_text(lowered, "div") || same_text(lowered, "span") || same_text(lowered, "p")
        || same_text(lowered, "article") || same_text(lowered, "section") || same_text(
        lowered,
        "h1",
    )
}

/// The element for a custom tag, from its lower-cased name, its name as
/// written, its class and its rendered children.
pub fn element_for_tag(
    lowered: &str,
    name: &str,
    class: Option<String>,
    children: Vec<MarkupNode>,
) -> (made: MarkupNode)
    ensures
        made@ == element_for_tag_view(
            lowered@,
            name@,
            class.deep_view(),
            markup_views(children@),
        ),
{
    let mut attributes = no_attributes();
    if is_registered_plain_tag(lowered) {
        if let Some(c) = class {
            push_attribute(&mut attributes, attribute("class", c));
        }
        proof {
            assert(markup_attribute_views(attributes@) =~= optional_attribute(
                "class"@,
                class.deep_view(),
            ));
        }
        element(lowered, attributes, children)
    } else if same_text(lowered, "custom-alert") {
        let mut inner_attributes = no_attributes();
        push_attribute(&mut inner_attributes, literal_attribute("class", "alert-content"));
        let inner = element("div", inner_attributes, children);
        let mut content = no_nodes();
        push_node(&mut content, inner);
        push_attribute(&mut attributes, literal_attribute("class", "custom-alert"));
        proof {
            assert(markup_attribute_views(inner_attributes@) =~= seq![
                ("class"@, "alert-content"@),
            ]);
            assert(markup_attribute_views(attributes@) =~= seq![("class"@, "custom-alert"@)]);
            assert(markup_views(content@) =~= seq![inner@]);
        }
        element("div", attributes, content)
    } else {
        push_attribute(&mut attributes, literal_attribute("class", "unknown-element"));
        push_attribute(&mut attributes, literal_attribute("data-element-type", name));
        proof {
            assert(markup_attribute_views(attributes@) =~= seq![
                ("class"@, "unknown-element"@),
                ("data-element-type"@, name@),
            ]);
        }
        element("div", attributes, children)
    }
}

/// An element around the rendered children, where they rendered.
pub fn wrap(
    tag: &str,
    attributes: Vec<MarkupAttribute>,
    children: Result<Vec<MarkupNode>, RenderError>,
) -> (outcome: Result<MarkupNode, RenderError>)
    ensures
        outcome_view(outcome) == wrapped(
            tag@,
            markup_attribute_views(attributes@),
            content_view(children),
        ),
{
    match children {
        Ok(content) => Ok(element(tag, attributes, content)),
        Err(error) => Err(error),
    }
}

/// The markup of an image.
pub fn image(url: &str, alt: &Option<String>, title: &Option<String>) -> (made: MarkupNode)
    ensures
        made@ == image_view(url@, alt.deep_view(), title.deep_view()),
{
    let mut attributes = no_attributes();
    push_attribute(&mut attributes, literal_attribute("src", url));
    let alt_text = match alt {
        Some(a) => a.clone(),
        None => String::new(),
    };
    push_attribute(&mut attributes, attribute("alt", alt_text));
    if let Some(t) = title {
        push_attribute(&mut attributes, attribute("title", t.clone()));
    }
    let children = no_nodes();
    proof {
        assert(markup_attribute_views(attributes@) =~= image_view(
            url@,
            alt.deep_view(),
            title.deep_view(),
        )->attributes);
    }
    element("img", attributes, children)
}

/// Renders the children of a container, in order. Stops at the first that
/// fails.
pub fn render_children(children: &Vec<Node>, highlights: &Highlights, options: &RenderOptions)
    -> (outcome: Result<Vec<MarkupNode>, RenderError>)
    ensures
        content_view(outcome) == rendered_all(node_views(children@), highlights, *options),
    decreases children, 0nat,
{
    let ghost all = node_views(children@);
    let mut content = no_nodes();
    let mut i: usize = 0;
    proof {
        assert(all.take(0) == Seq::<NodeView>::empty());
    }
    while i < children.len()
        invariant
            i <= children.len(),
            all == node_views(children@),
            rendered_all(all.take(i as int), highlights, *options) == Ok::<
                Seq<MarkupView>,
                RenderErrorView,
            >(markup_views(content@)),
        decreases children.len() - i,
    {
        proof {
            assert(all.take(i + 1).drop_last() == all.take(i as int));
            assert(all.take(i + 1).last() == children[i as int]@);
        }
        match render_node(&children[i], highlights, options) {
            Ok(markup) => {
                push_node(&mut content, markup);
            },
            Err(error) => {
                proof {
                    assert(rendered_all(all.take(i + 1), highlights, *options) == Err::<
                        Seq<MarkupView>,
                        RenderErrorView,
                    >(error@));
                    lemma_failure_stays(all, highlights, *options, i + 1);
                }
                return Err(error);
            },
        }
        i += 1;
    }
    proof {
        assert(all.take(i as int) == all);
    }
    Ok(content)
}

/// Renders a custom element. With strictness on, an attribute of expression
/// form fails the call with the element's name before anything is rendered.
/// Otherwise the children are rendered, and the lower-cased name selects the
/// element, with the class taken from the attributes; a class of expression
/// form, tolerated here, leaves the element without a class.
pub fn create_element(
    attributes: &Vec<Attribute>,
    children: &Vec<Node>,
    name: &str,
    highlights: &Highlights,
    options: &RenderOptions,
) -> (outcome: Result<MarkupNode, RenderError>)
    ensures
        outcome_view(outcome) == created_element(
            attribute_views(attributes@),
            rendered_all(node_views(children@), highlights, *options),
            name@,
            *options,
        ),
    decreases children, 1nat,
{
    if options.strict && has_expression_attribute(attributes) {
        return Err(RenderError::UnsupportedConstruct { what: String::from_str(name) });
    }
    match render_children(children, highlights, options) {
        Ok(content) => {
            let lowered = name.to_lowercase();
            let class = match get_class_from_attributes(attributes) {
                Ok(class) => class,
                Err(_) => None,
            };
            Ok(element_for_tag(lowered.as_str(), name, class, content))
        },
        Err(error) => Err(error),
    }
}

/// Renders a node and all that is below it.
pub fn render_node(node: &Node, highlights: &Highlights, options: &RenderOptions) -> (outcome:
    Result<MarkupNode, RenderError>)
    ensures
        outcome_view(outcome) == rendered(node@, highlights, *options),
        outcome matches Ok(markup) ==> markup@.well_formed(),
    decreases node,
{
    proof {
        lemma_rendered_well_formed(node@, highlights, *options);
    }
    match node {
        Node::Root { children } => match render_children(children, highlights, options) {
            Ok(content) => Ok(MarkupNode::Fragment { children: content }),
            Err(error) => Err(error),
        },
        Node::Paragraph { children } => wrap(
            "p",
            no_attributes(),
            render_children(children, highlights, options),
        ),
        Node::Blockquote { children } => wrap(
            "blockquote",
            no_attributes(),
            render_children(children, highlights, options),
        ),
        Node::Strong { children } => wrap(
            "strong",
            no_attributes(),
            render_children(children, highlights, options),
        ),
        Node::Emphasis { children } => wrap(
            "em",
            no_attributes(),
            render_children(children, highlights, options),
        ),
        Node::Heading { depth, children } => wrap(
            heading_tag_name(*depth),
            no_attributes(),
            render_children(children, highlights, options),
        ),
        Node::Text { value } => Ok(text_node(value.as_str())),
        Node::InlineCode { value } => {
            let mut content = no_nodes();
            push_node(&mut content, text_node(value.as_str()));
            proof {
                assert(markup_views(content@) =~= seq![MarkupView::Text { value: value@ }]);
            }
            Ok(element("code", no_attributes(), content))
        },
        Node::Code { value, lang, meta } => match options.code_mode {
            CodeMode::Highlighted => highlights.highlight(value.as_str(), lang, meta),
            CodeMode::Legacy => Ok(legacy_code_block(value.as_str(), lang)),
        },
        Node::Break => Ok(element("br", no_attributes(), no_nodes())),
        Node::Image { url, alt, title } => Ok(image(url.as_str(), alt, title)),
        Node::Link { url, title, children } => {
            let mut attributes = no_attributes();
            push_attribute(&mut attributes, literal_attribute("href", url.as_str()));
            if let Some(t) = title {
                push_attribute(&mut attributes, attribute("title", t.clone()));
            }
            proof {
                assert(markup_attribute_views(attributes@) =~= link_attributes(
                    url@,
                    title.deep_view(),
                ));
            }
            wrap("a", attributes, render_children(children, highlights, options))
        },
        Node::Table { children } => {
            let mut attributes = no_attributes();
            push_attribute(&mut attributes, literal_attribute("style", "text-align: initial;"));
            proof {
                assert(markup_attribute_views(attributes@) =~= seq![
                    ("style"@, "text-align: initial;"@),
                ]);
            }
            wrap("table", attributes, render_children(children, highlights, options))
        },
        Node::TableRow { children } => wrap(
            "tr",
            no_attributes(),
            render_children(children, highlights, options),
        ),
        Node::TableCell { children } => wrap(
            "td",
            no_attributes(),
            render_children(children, highlights, options),
        ),
        Node::CustomElement { name, attributes, children } => {
            let tag: &str = match name {
                Some(n) => n.as_str(),
                None => "span",
            };
            create_element(attributes, children, tag, highlights, options)
        },
        Node::Unsupported { kind } => {
            if options.strict {
                Err(RenderError::UnsupportedConstruct { what: kind.clone() })
            } else {
                let mut content = no_nodes();
                push_node(&mut content, text_node("Unsupported node type"));
                proof {
                    assert(markup_views(content@) =~= seq![
                        MarkupView::Text { value: "Unsupported node type"@ },
                    ]);
                }
                Ok(element("span", no_attributes(), content))
            }
        },
    }
}

} // verus!
