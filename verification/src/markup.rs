//! The markup tree that rendering produces, and its textual form.

use crate::text::escaped;
use crate::text::push_escaped;
use crate::text::same_text;
use vstd::prelude::*;

verus! {

/// One attribute of an element.
#[derive(Debug, PartialEq, Eq)]
pub struct MarkupAttribute {
    pub name: String,
    pub value: String,
}

/// A node of the rendered markup.
#[derive(Debug, PartialEq, Eq)]
pub enum MarkupNode {
    /// An element with its attributes, in order, and its content.
    Element { tag: String, attributes: Vec<MarkupAttribute>, children: Vec<MarkupNode> },
    /// Literal text, encoded when it is written out.
    Text { value: String },
    /// Markup that is already rendered and is written out as it is.
    Raw { html: String },
    /// A run of nodes without an element around them.
    Fragment { children: Vec<MarkupNode> },
}

/// A markup tree as a mathematical value: texts are sequences of characters,
/// lists are sequences, an attribute is the pair of its name and its value.
pub ghost enum MarkupView {
    Element {
        tag: Seq<char>,
        attributes: Seq<(Seq<char>, Seq<char>)>,
        children: Seq<MarkupView>,
    },
    Text { value: Seq<char> },
    Raw { html: Seq<char> },
    Fragment { children: Seq<MarkupView> },
}

impl View for MarkupAttribute {
    type V = (Seq<char>, Seq<char>);

    open spec fn view(&self) -> (Seq<char>, Seq<char>) {
        (self.name@, self.value@)
    }
}

/// The views of a list of attributes, in order.
pub open spec fn markup_attribute_views(attributes: Seq<MarkupAttribute>) -> Seq<
    (Seq<char>, Seq<char>),
> {
    Seq::new(attributes.len(), |i: int| attributes[i]@)
}

/// The views of a list of markup nodes, in order.
pub open spec fn markup_views(nodes: Seq<MarkupNode>) -> Seq<MarkupView>
    decreases nodes,
{
    Seq::new(
        nodes.len(),
        |i: int|
            if 0 <= i < nodes.len() {
                nodes[i].view()
            } else {
                MarkupView::Fragment { children: Seq::empty() }
            },
    )
}

impl View for MarkupNode {
    type V = MarkupView;

    open spec fn view(&self) -> MarkupView
        decreases self,
    {
        match self {
            MarkupNode::Element { tag, attributes, children } => MarkupView::Element {
                tag: tag@,
                attributes: markup_attribute_views(attributes@),
                children: markup_views(children@),
            },
            MarkupNode::Text { value } => MarkupView::Text { value: value@ },
            MarkupNode::Raw { html } => MarkupView::Raw { html: html@ },
            MarkupNode::Fragment { children } => MarkupView::Fragment {
                children: markup_views(children@),
            },
        }
    }
}

/// No two attributes of the list share a name.
pub open spec fn names_unique(attributes: Seq<(Seq<char>, Seq<char>)>) -> bool {
    forall|i: int, j: int|
        0 <= i < j < attributes.len() ==> (#[trigger] attributes[i]).0 != (
        #[trigger] attributes[j]).0
}

/// Whether the list holds an attribute of the given name.
pub open spec fn has_attribute(attributes: Seq<(Seq<char>, Seq<char>)>, name: Seq<char>) -> bool {
    exists|i: int| 0 <= i < attributes.len() && (#[trigger] attributes[i]).0 == name
}

impl MarkupView {
    /// Every element of the tree has attributes with distinct names.
    pub open spec fn well_formed(self) -> bool
        decreases self,
    {
        match self {
            MarkupView::Element { attributes, children, .. } => {
                &&& names_unique(attributes)
                &&& forall|i: int|
                    0 <= i < children.len() ==> (#[trigger] children[i]).well_formed()
            },
            MarkupView::Fragment { children } => forall|i: int|
                0 <= i < children.len() ==> (#[trigger] children[i]).well_formed(),
            _ => true,
        }
    }

    /// The nodes directly below an element or a fragment.
    pub open spec fn children(self) -> Seq<MarkupView> {
        match self {
            MarkupView::Element { children, .. } => children,
            MarkupView::Fragment { children } => children,
            _ => Seq::empty(),
        }
    }
}

/// An attribute list with one entry where the value is present, and none
/// where it is absent.
pub open spec fn optional_attribute(name: Seq<char>, value: Option<Seq<char>>) -> Seq<
    (Seq<char>, Seq<char>),
> {
    match value {
        Some(v) => seq![(name, v)],
        None => Seq::empty(),
    }
}

/// Elements that are written without content and without a closing tag.
pub open spec fn is_void_tag(tag: Seq<char>) -> bool {
    ||| tag == "area"@
    ||| tag == "base"@
    ||| tag == "br"@
    ||| tag == "col"@
    ||| tag == "embed"@
    ||| tag == "hr"@
    ||| tag == "img"@
    ||| tag == "input"@
    ||| tag == "link"@
    ||| tag == "meta"@
    ||| tag == "source"@
    ||| tag == "track"@
    ||| tag == "wbr"@
}

/// One attribute as written inside an opening tag: a space, the name, and the
/// encoded value in double quotes.
pub open spec fn attribute_html(attribute: (Seq<char>, Seq<char>)) -> Seq<char> {
    " "@ + attribute.0 + "=\""@ + escaped(attribute.1) + "\""@
}

/// The attributes of an opening tag, in order.
pub open spec fn attributes_html(attributes: Seq<(Seq<char>, Seq<char>)>) -> Seq<char>
    decreases attributes.len(),
{
    if attributes.len() == 0 {
        Seq::empty()
    } else {
        attributes_html(attributes.drop_last()) + attribute_html(attributes.last())
    }
}

/// An opening tag: the tag and its attributes between angle brackets.
pub open spec fn open_tag(tag: Seq<char>, attributes: Seq<(Seq<char>, Seq<char>)>) -> Seq<char> {
    "<"@ + tag + attributes_html(attributes) + ">"@
}

/// A closing tag.
pub open spec fn close_tag(tag: Seq<char>) -> Seq<char> {
    "</"@ + tag + ">"@
}

/// The textual form of a markup tree. Text is encoded, raw markup is copied, a
/// fragment is the run of its children, and an element is its opening tag, its
/// children and its closing tag; a void element without children is its
/// opening tag alone.
pub open spec fn html_of(markup: MarkupView) -> Seq<char>
    decreases markup,
{
    match markup {
        MarkupView::Text { value } => escaped(value),
        MarkupView::Raw { html } => html,
        MarkupView::Fragment { children } => html_of_all(children),
        MarkupView::Element { tag, attributes, children } => {
            if is_void_tag(tag) && children.len() == 0 {
                open_tag(tag, attributes)
            } else {
                open_tag(tag, attributes) + html_of_all(children) + close_tag(tag)
            }
        },
    }
}

/// The textual forms of a run of nodes, one after the other.
pub open spec fn html_of_all(nodes: Seq<MarkupView>) -> Seq<char>
    decreases nodes,
{
    if nodes.len() == 0 {
        Seq::empty()
    } else {
        html_of_all(nodes.drop_last()) + html_of(nodes.last())
    }
}

/// An attribute with the given name and value.
pub fn attribute(name: &str, value: String) -> (made: MarkupAttribute)
    ensures
        made@ == (name@, value@),
{
    MarkupAttribute { name: String::from_str(name), value }
}

/// An attribute whose value is a copy of `value`.
pub fn literal_attribute(name: &str, value: &str) -> (made: MarkupAttribute)
    ensures
        made@ == (name@, value@),
{
    MarkupAttribute { name: String::from_str(name), value: String::from_str(value) }
}

/// An empty attribute list.
pub fn no_attributes() -> (list: Vec<MarkupAttribute>)
    ensures
        markup_attribute_views(list@) == Seq::<(Seq<char>, Seq<char>)>::empty(),
{
    let list: Vec<MarkupAttribute> = Vec::new();
    proof {
        assert(markup_attribute_views(list@) =~= Seq::<(Seq<char>, Seq<char>)>::empty());
    }
    list
}

/// Appends one attribute to a list.
pub fn push_attribute(list: &mut Vec<MarkupAttribute>, item: MarkupAttribute)
    ensures
        markup_attribute_views(final(list)@) == markup_attribute_views(old(list)@).push(item@),
{
    let ghost before = list@;
    list.push(item);
    proof {
        assert(markup_attribute_views(list@) =~= markup_attribute_views(before).push(item@));
    }
}

/// An empty run of nodes.
pub fn no_nodes() -> (list: Vec<MarkupNode>)
    ensures
        markup_views(list@) == Seq::<MarkupView>::empty(),
{
    let list: Vec<MarkupNode> = Vec::new();
    proof {
        assert(markup_views(list@) =~= Seq::<MarkupView>::empty());
    }
    list
}

/// Appends one node to a run of nodes.
pub fn push_node(list: &mut Vec<MarkupNode>, item: MarkupNode)
    ensures
        markup_views(final(list)@) == markup_views(old(list)@).push(item@),
{
    let ghost before = list@;
    list.push(item);
    proof {
        assert(markup_views(list@) =~= markup_views(before).push(item@));
    }
}

/// An element with the given tag, attributes and content.
pub fn element(tag: &str, attributes: Vec<MarkupAttribute>, children: Vec<MarkupNode>) -> (made:
    MarkupNode)
    ensures
        made@ == (MarkupView::Element {
            tag: tag@,
            attributes: markup_attribute_views(attributes@),
            children: markup_views(children@),
        }),
{
    MarkupNode::Element { tag: String::from_str(tag), attributes, children }
}

/// A text node holding a copy of `value`.
pub fn text_node(value: &str) -> (made: MarkupNode)
    ensures
        made@ == (MarkupView::Text { value: value@ }),
{
    MarkupNode::Text { value: String::from_str(value) }
}

/// Whether `tag` names a void element.
pub fn is_void(tag: &str) -> (void: bool)
    ensures
        void == is_void_tag(tag@),
{
    same_text(tag, "area") || same_text(tag, "base") || same_text(tag, "br") || same_text(
        tag,
        "col",
    ) || same_text(tag, "embed") || same_text(tag, "hr") || same_text(tag, "img") || same_text(
        tag,
        "input",
    ) || same_text(tag, "link") || same_text(tag, "meta") || same_text(tag, "source")
        || same_text(tag, "track") || same_text(tag, "wbr")
}

fn write_attributes(out: &mut String, attributes: &Vec<MarkupAttribute>)
    ensures
        final(out)@ == old(out)@ + attributes_html(markup_attribute_views(attributes@)),
{
    let ghost start = out@;
    let ghost all = markup_attribute_views(attributes@);
    let mut i: usize = 0;
    proof {
        assert(start + attributes_html(all.take(0)) == start);
    }
    while i < attributes.len()
        invariant
            i <= attributes.len(),
            all == markup_attribute_views(attributes@),
            out@ == start + attributes_html(all.take(i as int)),
        decreases attributes.len() - i,
    {
        let attribute = &attributes[i];
        let ghost before = out@;
        out.append(" ");
        out.append(attribute.name.as_str());
        out.append("=\"");
        push_escaped(out, attribute.value.as_str());
        out.append("\"");
        proof {
            assert(all.take(i + 1).drop_last() == all.take(i as int));
            assert(all.take(i + 1).last() == attribute@);
            assert(out@ == before + attribute_html(attribute@));
            assert(out@ == start + (attributes_html(all.take(i as int)) + attribute_html(
                attribute@,
            )));
        }
        i += 1;
    }
    proof {
        assert(all.take(i as int) == all);
    }
}

fn write_all(out: &mut String, nodes: &Vec<MarkupNode>)
    ensures
        final(out)@ == old(out)@ + html_of_all(markup_views(nodes@)),
    decreases nodes,
{
    let ghost start = out@;
    let ghost all = markup_views(nodes@);
    let mut i: usize = 0;
    proof {
        assert(start + html_of_all(all.take(0)) == start);
    }
    while i < nodes.len()
        invariant
            i <= nodes.len(),
            all == markup_views(nodes@),
            out@ == start + html_of_all(all.take(i as int)),
        decreases nodes.len() - i,
    {
        let ghost before = out@;
        nodes[i].write_html(out);
        proof {
            assert(all.take(i + 1).drop_last() == all.take(i as int));
            assert(all.take(i + 1).last() == nodes[i as int]@);
            assert(out@ == start + (html_of_all(all.take(i as int)) + html_of(nodes[i as int]@)));
        }
        i += 1;
    }
    proof {
        assert(all.take(i as int) == all);
    }
}

impl MarkupNode {
    /// Appends the textual form of the tree to `out`.
    pub fn write_html(&self, out: &mut String)
        ensures
            final(out)@ == old(out)@ + html_of(self@),
        decreases self,
    {
        let ghost start = out@;
        match self {
            MarkupNode::Text { value } => {
                push_escaped(out, value.as_str());
            },
            MarkupNode::Raw { html } => {
                out.append(html.as_str());
            },
            MarkupNode::Fragment { children } => {
                write_all(out, children);
            },
            MarkupNode::Element { tag, attributes, children } => {
                out.append("<");
                out.append(tag.as_str());
                write_attributes(out, attributes);
                out.append(">");
                proof {
                    assert(out@ == start + open_tag(tag@, markup_attribute_views(attributes@)));
                }
                if !(is_void(tag.as_str()) && children.len() == 0) {
                    let ghost opened = out@;
                    write_all(out, children);
                    let ghost filled = out@;
                    out.append("</");
                    out.append(tag.as_str());
                    out.append(">");
                    proof {
                        assert(out@ == filled + close_tag(tag@));
                        assert(out@ == start + (open_tag(
                            tag@,
                            markup_attribute_views(attributes@),
                        ) + html_of_all(markup_views(children@)) + close_tag(tag@)));
                    }
                }
            },
        }
    }

    /// The textual form of the tree.
    pub fn render_to_string(&self) -> (html: String)
        ensures
            html@ == html_of(self@),
    {
        let mut html = String::new();
        self.write_html(&mut html);
        proof {
            assert(Seq::<char>::empty() + html_of(self@) == html_of(self@));
        }
        html
    }
}

} // verus!
