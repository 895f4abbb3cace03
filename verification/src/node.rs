//! The document tree that is rendered.

use vstd::prelude::*;

verus! {

/// The value of a property of a custom element.
#[derive(Debug, PartialEq, Eq)]
pub enum AttributeValue {
    /// A literal text.
    Literal(String),
    /// The source of an expression that would have to be evaluated.
    Expression(String),
}

/// One entry of the attribute list of a custom element.
#[derive(Debug, PartialEq, Eq)]
#[allow(inconsistent_fields)]
pub enum Attribute {
    /// A named property, with or without a value.
    Property { name: String, value: Option<AttributeValue> },
    /// An expression in place of a property, such as a spread.
    Expression { value: String },
}

/// A node of the parsed document.
#[derive(Debug, PartialEq, Eq)]
pub enum Node {
    Root { children: Vec<Node> },
    Paragraph { children: Vec<Node> },
    Blockquote { children: Vec<Node> },
    Strong { children: Vec<Node> },
    Emphasis { children: Vec<Node> },
    Heading { depth: u8, children: Vec<Node> },
    Text { value: String },
    InlineCode { value: String },
    Code { value: String, lang: Option<String>, meta: Option<String> },
    Break,
    Image { url: String, alt: Option<String>, title: Option<String> },
    Link { url: String, title: Option<String>, children: Vec<Node> },
    Table { children: Vec<Node> },
    TableRow { children: Vec<Node> },
    TableCell { children: Vec<Node> },
    /// A JSX-like element, dispatched by its name.
    CustomElement { name: Option<String>, attributes: Vec<Attribute>, children: Vec<Node> },
    /// A construct that the renderer does not implement; `kind` names it.
    Unsupported { kind: String },
}

/// The value of a property as a mathematical value.
pub ghost enum AttributeValueView {
    Literal(Seq<char>),
    Expression(Seq<char>),
}

/// An attribute as a mathematical value.
#[allow(inconsistent_fields)]
pub ghost enum AttributeView {
    Property { name: Seq<char>, value: Option<AttributeValueView> },
    Expression { value: Seq<char> },
}

/// A document tree as a mathematical value: texts are sequences of
/// characters, children are sequences of trees.
pub ghost enum NodeView {
    Root { children: Seq<NodeView> },
    Paragraph { children: Seq<NodeView> },
    Blockquote { children: Seq<NodeView> },
    Strong { children: Seq<NodeView> },
    Emphasis { children: Seq<NodeView> },
    Heading { depth: u8, children: Seq<NodeView> },
    Text { value: Seq<char> },
    InlineCode { value: Seq<char> },
    Code { value: Seq<char>, lang: Option<Seq<char>>, meta: Option<Seq<char>> },
    Break,
    Image { url: Seq<char>, alt: Option<Seq<char>>, title: Option<Seq<char>> },
    Link { url: Seq<char>, title: Option<Seq<char>>, children: Seq<NodeView> },
    Table { children: Seq<NodeView> },
    TableRow { children: Seq<NodeView> },
    TableCell { children: Seq<NodeView> },
    CustomElement {
        name: Option<Seq<char>>,
        attributes: Seq<AttributeView>,
        children: Seq<NodeView>,
    },
    Unsupported { kind: Seq<char> },
}

impl View for AttributeValue {
    type V = AttributeValueView;

    open spec fn view(&self) -> AttributeValueView {
        match self {
            AttributeValue::Literal(text) => AttributeValueView::Literal(text@),
            AttributeValue::Expression(source) => AttributeValueView::Expression(source@),
        }
    }
}

impl View for Attribute {
    type V = AttributeView;

    open spec fn view(&self) -> AttributeView {
        match self {
            Attribute::Property { name, value } => AttributeView::Property {
                name: name@,
                value: match value {
                    Some(v) => Some(v@),
                    None => None,
                },
            },
            Attribute::Expression { value } => AttributeView::Expression { value: value@ },
        }
    }
}

/// The views of a list of attributes, in order.
pub open spec fn attribute_views(attributes: Seq<Attribute>) -> Seq<AttributeView> {
    Seq::new(attributes.len(), |i: int| attributes[i]@)
}

/// The views of a list of nodes, in order.
pub open spec fn node_views(nodes: Seq<Node>) -> Seq<NodeView>
    decreases nodes,
{
    Seq::new(
        nodes.len(),
        |i: int|
            if 0 <= i < nodes.len() {
                nodes[i].view()
            } else {
                NodeView::Break
            },
    )
}

impl View for Node {
    type V = NodeView;

    open spec fn view(&self) -> NodeView
        decreases self,
    {
        match self {
            Node::Root { children } => NodeView::Root { children: node_views(children@) },
            Node::Paragraph { children } => NodeView::Paragraph {
                children: node_views(children@),
            },
            Node::Blockquote { children } => NodeView::Blockquote {
                children: node_views(children@),
            },
            Node::Strong { children } => NodeView::Strong { children: node_views(children@) },
            Node::Emphasis { children } => NodeView::Emphasis { children: node_views(children@) },
            Node::Heading { depth, children } => NodeView::Heading {
                depth: *depth,
                children: node_views(children@),
            },
            Node::Text { value } => NodeView::Text { value: value@ },
            Node::InlineCode { value } => NodeView::InlineCode { value: value@ },
            Node::Code { value, lang, meta } => NodeView::Code {
                value: value@,
                lang: lang.deep_view(),
                meta: meta.deep_view(),
            },
            Node::Break => NodeView::Break,
            Node::Image { url, alt, title } => NodeView::Image {
                url: url@,
                alt: alt.deep_view(),
                title: title.deep_view(),
            },
            Node::Link { url, title, children } => NodeView::Link {
                url: url@,
                title: title.deep_view(),
                children: node_views(children@),
            },
            Node::Table { children } => NodeView::Table { children: node_views(children@) },
            Node::TableRow { children } => NodeView::TableRow { children: node_views(children@) },
            Node::TableCell { children } => NodeView::TableCell {
                children: node_views(children@),
            },
            Node::CustomElement { name, attributes, children } => NodeView::CustomElement {
                name: name.deep_view(),
                attributes: attribute_views(attributes@),
                children: node_views(children@),
            },
            Node::Unsupported { kind } => NodeView::Unsupported { kind: kind@ },
        }
    }
}

impl NodeView {
    /// The child nodes of a container, and no nodes for a leaf.
    pub open spec fn children(self) -> Seq<NodeView> {
        match self {
            NodeView::Root { children } => children,
            NodeView::Paragraph { children } => children,
            NodeView::Blockquote { children } => children,
            NodeView::Strong { children } => children,
            NodeView::Emphasis { children } => children,
            NodeView::Heading { children, .. } => children,
            NodeView::Link { children, .. } => children,
            NodeView::Table { children } => children,
            NodeView::TableRow { children } => children,
            NodeView::TableCell { children } => children,
            NodeView::CustomElement { children, .. } => children,
            _ => Seq::empty(),
        }
    }
}

} // verus!
