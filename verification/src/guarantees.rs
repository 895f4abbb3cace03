//! What holds of every render call, proved over the definitions of the
//! renderer.

use crate::error::RenderErrorView;
use crate::highlight::code_block_view;
use crate::highlight::code_blocks_of;
use crate::highlight::code_blocks_of_all;
use crate::highlight::covers;
use crate::highlight::language_badge;
use crate::highlight::legacy_code_block_view;
use crate::highlight::Highlights;
use crate::markup::attribute_html;
use crate::markup::attributes_html;
use crate::markup::has_attribute;
use crate::markup::html_of;
use crate::markup::names_unique;
use crate::markup::optional_attribute;
use crate::markup::MarkupView;
use crate::node::AttributeView;
use crate::node::NodeView;
use crate::render::class_of;
use crate::render::has_expression;
use crate::render::is_expression;
use crate::render::heading_level;
use crate::render::heading_tag;
use crate::render::image_view;
use crate::render::is_plain_tag;
use crate::render::link_attributes;
use crate::render::rendered;
use crate::render::rendered_all;
use crate::render::tag_name;
use crate::render::CodeMode;
use crate::render::RenderOptions;
use crate::text::escaped;
use crate::text::lowercased;
use vstd::prelude::*;

verus! {

/// Whether a tree holds only constructs that the renderer implements: no node
/// of an unsupported kind and no attribute of expression form.
pub open spec fn is_supported(node: NodeView) -> bool
    decreases node,
{
    match node {
        NodeView::Unsupported { .. } => false,
        NodeView::CustomElement { attributes, .. } => {
            &&& !has_expression(attributes)
            &&& forall|i: int|
                0 <= i < node.children().len() ==> is_supported(#[trigger] node.children()[i])
        },
        _ => forall|i: int|
            0 <= i < node.children().len() ==> is_supported(#[trigger] node.children()[i]),
    }
}

/// Whether the table holds token markup for every code block of a tree.
pub open spec fn tokenizes(node: NodeView, highlights: &Highlights) -> bool
    decreases node,
{
    match node {
        NodeView::Code { value, lang, .. } => highlights.token_markup(value, lang) is Some,
        _ => forall|i: int|
            0 <= i < node.children().len() ==> tokenizes(
                #[trigger] node.children()[i],
                highlights,
            ),
    }
}

/// Where the children of a node stand in its markup: below the inner element
/// of a `custom-alert`, directly below the element or fragment of any other
/// container. A leaf has no such place.
pub open spec fn content_of(node: NodeView, markup: MarkupView) -> Seq<MarkupView> {
    match node {
        NodeView::CustomElement { name, .. } => {
            let lowered = lowercased(tag_name(name));
            if !is_plain_tag(lowered) && lowered == "custom-alert"@ {
                markup.children()[0].children()
            } else {
                markup.children()
            }
        },
        NodeView::Root { .. }
        | NodeView::Paragraph { .. }
        | NodeView::Blockquote { .. }
        | NodeView::Strong { .. }
        | NodeView::Emphasis { .. }
        | NodeView::Heading { .. }
        | NodeView::Link { .. }
        | NodeView::Table { .. }
        | NodeView::TableRow { .. }
        | NodeView::TableCell { .. } => markup.children(),
        _ => Seq::empty(),
    }
}

/// Whether `markup` keeps the shape of `node`: it holds as many children as the
/// node, each child is the markup of the node's child at the same place, and
/// the same holds below.
pub open spec fn keeps_structure(
    node: NodeView,
    markup: MarkupView,
    highlights: &Highlights,
    options: RenderOptions,
) -> bool
    decreases node,
{
    let content = content_of(node, markup);
    let children = node.children();
    &&& content.len() == children.len()
    &&& forall|i: int|
        0 <= i < children.len() ==> {
            &&& rendered(#[trigger] children[i], highlights, options) == Ok::<
                MarkupView,
                RenderErrorView,
            >(content[i])
            &&& keeps_structure(children[i], content[i], highlights, options)
        }
}

/// A run of nodes renders exactly when each node of it renders, and then the
/// markup holds the markup of each node at its place.
pub proof fn lemma_rendered_all(
    nodes: Seq<NodeView>,
    highlights: &Highlights,
    options: RenderOptions,
)
    ensures
        rendered_all(nodes, highlights, options) is Ok <==> (forall|i: int|
            0 <= i < nodes.len() ==> (#[trigger] rendered(nodes[i], highlights, options)) is Ok),
        rendered_all(nodes, highlights, options) matches Ok(content) ==> {
            &&& content.len() == nodes.len()
            &&& forall|i: int|
                0 <= i < nodes.len() ==> #[trigger] rendered(nodes[i], highlights, options)
                    == Ok::<MarkupView, RenderErrorView>(content[i])
        },
    decreases nodes.len(),
{
    if nodes.len() > 0 {
        let front = nodes.drop_last();
        lemma_rendered_all(front, highlights, options);
        assert forall|i: int| 0 <= i < front.len() implies front[i] == nodes[i] by {}
        if rendered_all(nodes, highlights, options) is Ok {
            assert forall|i: int| 0 <= i < nodes.len() implies (#[trigger] rendered(
                nodes[i],
                highlights,
                options,
            )) is Ok by {
                if i < front.len() {
                    assert(front[i] == nodes[i]);
                }
            }
        }
        if forall|i: int|
            0 <= i < nodes.len() ==> (#[trigger] rendered(nodes[i], highlights, options)) is Ok {
            assert forall|i: int| 0 <= i < front.len() implies (#[trigger] rendered(
                front[i],
                highlights,
                options,
            )) is Ok by {
                assert(front[i] == nodes[i]);
            }
            assert(rendered(nodes.last(), highlights, options) is Ok);
        }
        if let Ok(content) = rendered_all(nodes, highlights, options) {
            assert forall|i: int| 0 <= i < nodes.len() implies #[trigger] rendered(
                nodes[i],
                highlights,
                options,
            ) == Ok::<MarkupView, RenderErrorView>(content[i]) by {
                if i < front.len() {
                    assert(front[i] == nodes[i]);
                }
            }
        }
    }
}

/// A tree of supported constructs renders, provided the table holds token
/// markup for its code blocks or the legacy form of code blocks is chosen.
pub proof fn lemma_supported_tree_renders(
    node: NodeView,
    highlights: &Highlights,
    options: RenderOptions,
)
    requires
        is_supported(node),
        options.code_mode == CodeMode::Legacy || tokenizes(node, highlights),
    ensures
        rendered(node, highlights, options) is Ok,
    decreases node,
{
    let children = node.children();
    match node {
        NodeView::Root { .. }
        | NodeView::Paragraph { .. }
        | NodeView::Blockquote { .. }
        | NodeView::Strong { .. }
        | NodeView::Emphasis { .. }
        | NodeView::Heading { .. }
        | NodeView::Link { .. }
        | NodeView::Table { .. }
        | NodeView::TableRow { .. }
        | NodeView::TableCell { .. }
        | NodeView::CustomElement { .. } => {
            assert forall|i: int| 0 <= i < children.len() implies (#[trigger] rendered(
                children[i],
                highlights,
                options,
            )) is Ok by {
                lemma_supported_tree_renders(children[i], highlights, options);
            }
            lemma_rendered_all(children, highlights, options);
        },
        _ => {},
    }
}

/// The code blocks of a run of trees hold the code blocks of each tree of the
/// run.
pub proof fn lemma_blocks_of_each(nodes: Seq<NodeView>, i: int)
    requires
        0 <= i < nodes.len(),
    ensures
        forall|block: (Seq<char>, Option<Seq<char>>)|
            code_blocks_of(nodes[i]).contains(block) ==> #[trigger] code_blocks_of_all(
                nodes,
            ).contains(block),
    decreases nodes.len(),
{
    let front = code_blocks_of_all(nodes.drop_last());
    let back = code_blocks_of(nodes.last());
    assert(code_blocks_of_all(nodes) == front + back);
    if i < nodes.len() - 1 {
        assert(nodes.drop_last()[i] == nodes[i]);
        lemma_blocks_of_each(nodes.drop_last(), i);
        assert forall|block: (Seq<char>, Option<Seq<char>>)|
            code_blocks_of(nodes[i]).contains(block) implies #[trigger] code_blocks_of_all(
            nodes,
        ).contains(block) by {
            assert(front.contains(block));
            let k = choose|k: int| 0 <= k < front.len() && front[k] == block;
            assert((front + back)[k] == block);
        }
    } else {
        assert forall|block: (Seq<char>, Option<Seq<char>>)|
            code_blocks_of(nodes[i]).contains(block) implies #[trigger] code_blocks_of_all(
            nodes,
        ).contains(block) by {
            let k = choose|k: int| 0 <= k < back.len() && back[k] == block;
            assert((front + back)[front.len() + k] == block);
        }
    }
}

/// A table that holds token markup for the code blocks that
/// [`code_blocks_of`] lists for a tree holds it for every code block of the
/// tree.
pub proof fn lemma_covered_tree_tokenizes(node: NodeView, highlights: &Highlights)
    requires
        covers(highlights, code_blocks_of(node)),
    ensures
        tokenizes(node, highlights),
    decreases node,
{
    match node {
        NodeView::Code { value, lang, .. } => {
            assert(code_blocks_of(node)[0] == (value, lang));
            assert(code_blocks_of(node).contains((value, lang)));
        },
        _ => {
            let children = node.children();
            assert forall|i: int| 0 <= i < children.len() implies tokenizes(
                #[trigger] children[i],
                highlights,
            ) by {
                lemma_blocks_of_each(children, i);
                assert forall|block: (Seq<char>, Option<Seq<char>>)| #[trigger]
                    code_blocks_of(children[i]).contains(block) implies highlights.token_markup(
                    block.0,
                    block.1,
                ) is Some by {
                    assert(code_blocks_of_all(children).contains(block));
                }
                lemma_covered_tree_tokenizes(children[i], highlights);
            }
        },
    }
}

/// A tree of supported constructs always renders once the table holds token
/// markup for the blocks that [`code_blocks_of`] lists for it: the call gives
/// markup that keeps the structure of the tree, never a failure, and so never
/// a placeholder in place of a subtree.
pub proof fn lemma_covered_supported_tree_renders(
    node: NodeView,
    highlights: &Highlights,
    options: RenderOptions,
)
    requires
        is_supported(node),
        covers(highlights, code_blocks_of(node)),
    ensures
        rendered(node, highlights, options) matches Ok(markup) && keeps_structure(
            node,
            markup,
            highlights,
            options,
        ),
{
    lemma_covered_tree_tokenizes(node, highlights);
    lemma_supported_tree_renders(node, highlights, options);
    lemma_structure_preserved(
        node,
        rendered(node, highlights, options)->Ok_0,
        highlights,
        options,
    );
}

/// A heading deeper than 6 renders as the heading of depth 6 with the same
/// children does, with the tag `h6`.
pub proof fn lemma_deep_heading_is_h6(
    depth: u8,
    children: Seq<NodeView>,
    highlights: &Highlights,
    options: RenderOptions,
)
    requires
        depth > 6,
    ensures
        heading_tag(depth) == "h6"@,
        rendered(NodeView::Heading { depth, children }, highlights, options) == rendered(
            NodeView::Heading { depth: 6, children },
            highlights,
            options,
        ),
        rendered(NodeView::Heading { depth, children }, highlights, options) matches Ok(markup)
            ==> markup->tag == "h6"@,
{
}

/// Structural fidelity: the markup of a node holds the markup of the node's
/// children, as many as there are and in their order, and so at every level
/// below.
pub proof fn lemma_structure_preserved(
    node: NodeView,
    markup: MarkupView,
    highlights: &Highlights,
    options: RenderOptions,
)
    requires
        rendered(node, highlights, options) == Ok::<MarkupView, RenderErrorView>(markup),
    ensures
        keeps_structure(node, markup, highlights, options),
    decreases node,
{
    let children = node.children();
    let content = content_of(node, markup);
    match node {
        NodeView::Root { .. }
        | NodeView::Paragraph { .. }
        | NodeView::Blockquote { .. }
        | NodeView::Strong { .. }
        | NodeView::Emphasis { .. }
        | NodeView::Heading { .. }
        | NodeView::Link { .. }
        | NodeView::Table { .. }
        | NodeView::TableRow { .. }
        | NodeView::TableCell { .. }
        | NodeView::CustomElement { .. } => {
            lemma_rendered_all(children, highlights, options);
            assert(rendered_all(children, highlights, options) == Ok::<
                Seq<MarkupView>,
                RenderErrorView,
            >(content));
            assert forall|i: int| 0 <= i < children.len() implies keeps_structure(
                #[trigger] children[i],
                content[i],
                highlights,
                options,
            ) by {
                lemma_structure_preserved(children[i], content[i], highlights, options);
            }
        },
        _ => {},
    }
}

/// The class of a list without an attribute of expression form can be read:
/// with strictness on, no element that renders has lost its class.
pub proof fn lemma_class_without_expression(attributes: Seq<AttributeView>)
    requires
        !has_expression(attributes),
    ensures
        class_of(attributes) is Ok,
    decreases attributes.len(),
{
    if attributes.len() > 0 {
        assert(!is_expression(attributes[0]));
        let rest = attributes.drop_first();
        assert forall|i: int| 0 <= i < rest.len() implies !is_expression(#[trigger] rest[i]) by {
            assert(rest[i] == attributes[i + 1]);
        }
        lemma_class_without_expression(rest);
    }
}

/// The unknown-tag fallback: a custom element whose lower-cased name is not in
/// the registry renders, where its children render, to a `div` that is marked
/// as unknown and records the name as it was written, whatever the name.
pub proof fn lemma_unknown_tag_records_name(
    name: Seq<char>,
    attributes: Seq<AttributeView>,
    children: Seq<NodeView>,
    highlights: &Highlights,
    options: RenderOptions,
)
    requires
        !is_plain_tag(lowercased(name)),
        lowercased(name) != "custom-alert"@,
        !(options.strict && has_expression(attributes)),
    ensures
        match rendered(
            NodeView::CustomElement { name: Some(name), attributes, children },
            highlights,
            options,
        ) {
            Ok(markup) => {
                &&& rendered_all(children, highlights, options) == Ok::<
                    Seq<MarkupView>,
                    RenderErrorView,
                >(markup.children())
                &&& markup == MarkupView::Element {
                    tag: "div"@,
                    attributes: seq![
                        ("class"@, "unknown-element"@),
                        ("data-element-type"@, name),
                    ],
                    children: markup.children(),
                }
            },
            Err(error) => rendered_all(children, highlights, options) == Err::<
                Seq<MarkupView>,
                RenderErrorView,
            >(error),
        },
{
}

/// The digit that ends the tag of a heading.
pub open spec fn level_digit(level: int) -> char {
    if level == 1 {
        '1'
    } else if level == 2 {
        '2'
    } else if level == 3 {
        '3'
    } else if level == 4 {
        '4'
    } else if level == 5 {
        '5'
    } else {
        '6'
    }
}

/// Heading depths 1 to 6 map one to one to `h1` to `h6`; a depth above 6 maps
/// to `h6`, a depth of 0 to `h1`.
pub proof fn lemma_heading_tags(a: u8, b: u8)
    ensures
        1 <= heading_level(a) <= 6,
        1 <= a <= 6 ==> heading_level(a) == a,
        a > 6 ==> heading_level(a) == 6,
        a == 0 ==> heading_level(a) == 1,
        heading_tag(a) == seq!['h', level_digit(heading_level(a))],
        heading_tag(a) == heading_tag(b) <==> heading_level(a) == heading_level(b),
{
    reveal_strlit("h1");
    reveal_strlit("h2");
    reveal_strlit("h3");
    reveal_strlit("h4");
    reveal_strlit("h5");
    reveal_strlit("h6");
    assert(heading_tag(a) =~= seq!['h', level_digit(heading_level(a))]);
    assert(heading_tag(b) =~= seq!['h', level_digit(heading_level(b))]);
    if heading_tag(a) == heading_tag(b) {
        assert(heading_tag(a)[1] == heading_tag(b)[1]);
    }
}

/// The `title` attribute stands in the markup of an image or a link exactly
/// when the node has a title, and then holds that title. Without one, the
/// image is written as its `src` and `alt` alone.
pub proof fn lemma_title_only_when_given(
    url: Seq<char>,
    alt: Option<Seq<char>>,
    title: Option<Seq<char>>,
)
    ensures
        has_attribute(image_view(url, alt, title)->attributes, "title"@) <==> title is Some,
        title matches Some(t) ==> image_view(url, alt, title)->attributes[2] == ("title"@, t),
        has_attribute(link_attributes(url, title), "title"@) <==> title is Some,
        title matches Some(t) ==> link_attributes(url, title)[1] == ("title"@, t),
        title is None ==> html_of(image_view(url, alt, title)) == "<img src=\""@ + escaped(url)
            + "\" alt=\""@ + escaped(
            match alt {
                Some(a) => a,
                None => Seq::empty(),
            },
        ) + "\">"@,
{
    reveal_strlit("title");
    reveal_strlit("src");
    reveal_strlit("alt");
    reveal_strlit("href");
    let image = image_view(url, alt, title)->attributes;
    let link = link_attributes(url, title);
    assert(image[0].0 == "src"@ && image[1].0 == "alt"@);
    assert(link[0].0 == "href"@);
    assert("src"@ != "title"@) by {
        assert("src"@.len() != "title"@.len());
    }
    assert("alt"@ != "title"@) by {
        assert("alt"@.len() != "title"@.len());
    }
    assert("href"@ != "title"@) by {
        assert("href"@.len() != "title"@.len());
    }
    if let Some(t) = title {
        assert(image[2] == ("title"@, t));
        assert(link[1] == ("title"@, t));
    } else {
        let alt_text = match alt {
            Some(a) => a,
            None => Seq::empty(),
        };
        let src = ("src"@, url);
        let alt_attribute = ("alt"@, alt_text);
        assert(image =~= seq![src, alt_attribute]);
        assert(image.drop_last() =~= seq![src]);
        assert(seq![src].drop_last() =~= Seq::<(Seq<char>, Seq<char>)>::empty());
        reveal_with_fuel(attributes_html, 3);
        assert(attributes_html(image) =~= attribute_html(src) + attribute_html(alt_attribute));
        reveal_strlit("<");
        reveal_strlit(">");
        reveal_strlit(" ");
        reveal_strlit("=\"");
        reveal_strlit("\"");
        reveal_strlit("img");
        reveal_strlit("<img src=\"");
        reveal_strlit("\" alt=\"");
        reveal_strlit("\">");
        assert(html_of(image_view(url, alt, title)) =~= "<img src=\""@ + escaped(url)
            + "\" alt=\""@ + escaped(alt_text) + "\">"@);
    }
}

/// The markup of a rendered node is well formed: no element of it carries two
/// attributes of one name.
pub proof fn lemma_rendered_well_formed(
    node: NodeView,
    highlights: &Highlights,
    options: RenderOptions,
)
    ensures
        rendered(node, highlights, options) matches Ok(markup) ==> markup.well_formed(),
    decreases node,
{
    if let Ok(markup) = rendered(node, highlights, options) {
        let children = node.children();
        match node {
            NodeView::Root { .. }
            | NodeView::Paragraph { .. }
            | NodeView::Blockquote { .. }
            | NodeView::Strong { .. }
            | NodeView::Emphasis { .. }
            | NodeView::Heading { .. }
            | NodeView::Table { .. }
            | NodeView::TableRow { .. }
            | NodeView::TableCell { .. } => {
                lemma_content_well_formed(children, highlights, options);
            },
            NodeView::Link { .. } => {
                lemma_content_well_formed(children, highlights, options);
                lemma_fixed_names_differ();
            },
            NodeView::CustomElement { name, .. } => {
                lemma_content_well_formed(children, highlights, options);
                lemma_fixed_names_differ();
                let lowered = lowercased(tag_name(name));
                if !is_plain_tag(lowered) && lowered == "custom-alert"@ {
                    let inner = markup.children()[0];
                    assert(inner.well_formed());
                    assert(markup.children().len() == 1);
                }
            },
            NodeView::Image { .. } => {
                lemma_fixed_names_differ();
            },
            NodeView::Code { value, lang, meta } => {
                lemma_fixed_names_differ();
                match options.code_mode {
                    CodeMode::Highlighted => {
                        let tokens = highlights.token_markup(value, lang)->Some_0;
                        lemma_code_block_well_formed(tokens, lang, meta);
                    },
                    CodeMode::Legacy => {
                        let block = legacy_code_block_view(value, lang);
                        let inner = block.children()[0];
                        assert(inner.children()[0].well_formed());
                        assert(inner.well_formed());
                    },
                }
            },
            NodeView::InlineCode { .. } => {
                assert(markup.children()[0].well_formed());
            },
            NodeView::Unsupported { .. } => {
                assert(markup.children()[0].well_formed());
            },
            _ => {},
        }
    }
}

/// The markup of a run of nodes is well formed throughout.
pub proof fn lemma_content_well_formed(
    nodes: Seq<NodeView>,
    highlights: &Highlights,
    options: RenderOptions,
)
    ensures
        rendered_all(nodes, highlights, options) matches Ok(content) ==> forall|i: int|
            0 <= i < content.len() ==> (#[trigger] content[i]).well_formed(),
    decreases nodes, 0nat,
{
    if let Ok(content) = rendered_all(nodes, highlights, options) {
        lemma_rendered_all(nodes, highlights, options);
        assert forall|i: int| 0 <= i < content.len() implies (#[trigger] content[i]).well_formed() by {
            assert(rendered(nodes[i], highlights, options) == Ok::<MarkupView, RenderErrorView>(
                content[i],
            ));
            lemma_rendered_well_formed(nodes[i], highlights, options);
        }
    }
}

/// The attribute names that the renderer writes side by side differ.
pub proof fn lemma_fixed_names_differ()
    ensures
        "src"@ != "alt"@,
        "src"@ != "title"@,
        "alt"@ != "title"@,
        "href"@ != "title"@,
        "class"@ != "data-element-type"@,
        "class"@ != "data-language"@,
        "class"@ != "data-meta"@,
        "data-language"@ != "data-meta"@,
{
    reveal_strlit("src");
    reveal_strlit("alt");
    reveal_strlit("title");
    reveal_strlit("href");
    reveal_strlit("class");
    reveal_strlit("data-element-type");
    reveal_strlit("data-language");
    reveal_strlit("data-meta");
    assert("src"@[0] != "alt"@[0]);
    assert("src"@.len() != "title"@.len());
    assert("alt"@.len() != "title"@.len());
    assert("href"@.len() != "title"@.len());
    assert("class"@.len() != "data-element-type"@.len());
    assert("class"@.len() != "data-language"@.len());
    assert("class"@.len() != "data-meta"@.len());
    assert("data-language"@.len() != "data-meta"@.len());
}

/// A highlighted code block is well formed.
pub proof fn lemma_code_block_well_formed(
    markup: Seq<char>,
    lang: Option<Seq<char>>,
    meta: Option<Seq<char>>,
)
    ensures
        code_block_view(markup, lang, meta).well_formed(),
{
    lemma_fixed_names_differ();
    let block = code_block_view(markup, lang, meta);
    let badge = language_badge(lang);
    let pre = block.children()[badge.len() as int];
    let code = pre.children()[0];
    let attributes = code->attributes;
    assert(attributes == seq![("class"@, "block"@)] + optional_attribute("data-language"@, lang)
        + optional_attribute("data-meta"@, meta));
    assert(names_unique(attributes));
    assert(code.children()[0].well_formed());
    assert(code.well_formed());
    assert(pre.well_formed());
    if let Some(l) = lang {
        assert(badge[0].children()[0].well_formed());
        assert(badge[0].well_formed());
    }
    assert forall|i: int| 0 <= i < block.children().len() implies (
    #[trigger] block.children()[i]).well_formed() by {
        if i < badge.len() {
            assert(block.children()[i] == badge[i]);
        } else {
            assert(block.children()[i] == pre);
        }
    }
}

} // verus!
