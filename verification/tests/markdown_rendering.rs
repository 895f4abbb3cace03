use leptos_markdown::clean_leptos_markup;
use leptos_markdown::render_node;
use leptos_markdown::Attribute;
use leptos_markdown::AttributeValue;
use leptos_markdown::CodeMode;
use leptos_markdown::Highlights;
use leptos_markdown::Node;
use leptos_markdown::RenderOptions;
use leptos_markdown::TestCase;
use markdown::mdast;

fn convert_value(value: &mdast::AttributeValue) -> AttributeValue {
    match value {
        mdast::AttributeValue::Literal(text) => AttributeValue::Literal(text.clone()),
        mdast::AttributeValue::Expression(expression) => {
            AttributeValue::Expression(expression.value.clone())
        }
    }
}

fn convert_attribute(attribute: &mdast::AttributeContent) -> Attribute {
    match attribute {
        mdast::AttributeContent::Property(property) => Attribute::Property {
            name: property.name.clone(),
            value: property.value.as_ref().map(convert_value),
        },
        mdast::AttributeContent::Expression(expression) => Attribute::Expression {
            value: expression.value.clone(),
        },
    }
}

fn convert_all(nodes: &[mdast::Node]) -> Vec<Node> {
    nodes.iter().map(convert).collect()
}

fn unsupported(kind: &str) -> Node {
    Node::Unsupported { kind: kind.to_string() }
}

fn convert(node: &mdast::Node) -> Node {
    match node {
        mdast::Node::Root(n) => Node::Root { children: convert_all(&n.children) },
        mdast::Node::Paragraph(n) => Node::Paragraph { children: convert_all(&n.children) },
        mdast::Node::Blockquote(n) => Node::Blockquote { children: convert_all(&n.children) },
        mdast::Node::Strong(n) => Node::Strong { children: convert_all(&n.children) },
        mdast::Node::Emphasis(n) => Node::Emphasis { children: convert_all(&n.children) },
        mdast::Node::Heading(n) => Node::Heading {
            depth: n.depth,
            children: convert_all(&n.children),
        },
        mdast::Node::Text(n) => Node::Text { value: n.value.clone() },
        mdast::Node::InlineCode(n) => Node::InlineCode { value: n.value.clone() },
        mdast::Node::Code(n) => Node::Code {
            value: n.value.clone(),
            lang: n.lang.clone(),
            meta: n.meta.clone(),
        },
        mdast::Node::Break(_) => Node::Break,
        mdast::Node::Image(n) => Node::Image {
            url: n.url.clone(),
            alt: Some(n.alt.clone()),
            title: n.title.clone(),
        },
        mdast::Node::Link(n) => Node::Link {
            url: n.url.clone(),
            title: n.title.clone(),
            children: convert_all(&n.children),
        },
        mdast::Node::Table(n) => Node::Table { children: convert_all(&n.children) },
        mdast::Node::TableRow(n) => Node::TableRow { children: convert_all(&n.children) },
        mdast::Node::TableCell(n) => Node::TableCell { children: convert_all(&n.children) },
        mdast::Node::MdxJsxTextElement(n) => Node::CustomElement {
            name: n.name.clone(),
            attributes: n.attributes.iter().map(convert_attribute).collect(),
            children: convert_all(&n.children),
        },
        mdast::Node::Delete(_) => unsupported("delete"),
        mdast::Node::ImageReference(_) => unsupported("imageReference"),
        mdast::Node::ThematicBreak(_) => unsupported("thematicBreak"),
        mdast::Node::ListItem(_) => unsupported("listItem"),
        mdast::Node::List(_) => unsupported("list"),
        mdast::Node::Html(_) => unsupported("html"),
        _ => unsupported("node"),
    }
}

fn render_source(source: &str, highlighter: &Highlights, options: &RenderOptions) -> String {
    let node = markdown::to_mdast(source, &markdown::ParseOptions::mdx()).expect("Lmao err");
    let result = render_node(&convert(&node), highlighter, options).expect("render");
    clean_leptos_markup(&result.render_to_string()).expect("patterns compile")
}

const EMPTY_LINK: &str = "![]()";
const NINJA_IMG: &str = "![an image](/ninJA.png).";
const EXPECTED_NINJA_IMG: &str = "<p><img src=\"/ninJA.png\" alt=\"an image\">.</p>";
const EMPTY_IMAGE: &str = "<p><img src=\"\" alt=\"\"></p>";

#[test]
fn test_image_handling() {
    let test_cases = vec![
        TestCase {
            desc: "should support images without alt, url, or title",
            expected: EMPTY_IMAGE,
            source: EMPTY_LINK,
            ..Default::default()
        },
        TestCase {
            desc: "should support images without title attribute",
            expected: EXPECTED_NINJA_IMG,
            source: NINJA_IMG,
            ..Default::default()
        },
        TestCase {
            desc: "should handle images with title attribute",
            expected: "<p>This is <img src=\"/ninJA.png\" alt=\"an image\" title=\"foo bar\">.</p>",
            source: "This is ![an image](/ninJA.png \"foo bar\").",
            ..Default::default()
        },
    ];

    let highlighter = Highlights::new();
    let options = RenderOptions::default();
    for test_case in test_cases {
        let html_string = render_source(test_case.source, &highlighter, &options);
        assert_eq!(
            test_case.expected, html_string,
            "\nTest '{}' failed.\nExpected: {}\nGot: {}\n",
            test_case.desc, test_case.expected, html_string,
        );
    }
}

#[test]
fn link_handling_test_test_markdown_rendering() {
    let test_cases = vec![
        TestCase {
            desc: "should handle links without title attribute",
            expected: "<p>This is <a href=\"https://rust-lang.org/\">a link</a> to Rust Lang</p>",
            source: "This is [a link](https://rust-lang.org/) to Rust Lang",
        },
        TestCase {
            desc: "should handle links with title attribute",
            expected: "<p>This is <a href=\"https://rust-lang.org/\" title=\"some title\">a link</a> to Rust Lang</p>",
            source: "This is [a link](https://rust-lang.org/ \"some title\") to Rust Lang",
        },
    ];

    let highlighter = Highlights::new();
    let options = RenderOptions::default();
    for test_case in test_cases {
        let html_string = render_source(test_case.source, &highlighter, &options);
        assert_eq!(
            test_case.expected, html_string,
            "\nTest '{}' failed.\nExpected: {}\nGot: {}\n",
            test_case.desc, test_case.expected, html_string,
        );
    }
}

#[test]
fn mdast_to_leptos_test_test_markdown_rendering() {
    let test_cases = vec![
        TestCase {
            desc: "should render a single paragraph",
            expected: "<p>Test</p>",
            source: "Test",
            ..Default::default()
        },
        TestCase {
            desc: "should handle multiple paragraphs properly",
            expected: "<p>Vue is awesome\nAnd so is markdown</p><p>Combining = epic</p>",
            source: "Vue is awesome\nAnd so is markdown\n\nCombining = epic",
            ..Default::default()
        },
        TestCase {
            desc: "should handle multiline paragraphs properly (softbreak, paragraphs)",
            expected: "<p>Vue is awesome\nAnd so is markdown<br>Combining=epic</p>",
            source: "Vue is awesome\nAnd so is markdown  \nCombining=epic",
            ..Default::default()
        },
        TestCase {
            desc: "should handle emphasis",
            expected: "<p>Vue is <em>totally</em> <em>awesome</em></p>",
            source: "Vue is _totally_ *awesome*",
            ..Default::default()
        },
        TestCase {
            desc: "should handle bold/strong texts",
            expected: "<p>Vue is <strong>totally</strong> <strong>awesome</strong></p>",
            source: "Vue is __totally__ **awesome**",
            ..Default::default()
        },
        TestCase {
            desc: "should handle headers",
            expected: "<h1>Awesome</h1>",
            source: "# Awesome",
            ..Default::default()
        },
        TestCase {
            desc: "should handle blockquotes",
            expected: "<blockquote><p>Moo\nTools\nFTW</p></blockquote>",
            source: "> Moo\n> Tools\n> FTW\n",
            ..Default::default()
        },
        TestCase {
            desc: "should handle code blocks with language",
            expected: "<pre><code class=\"language-js\">var foo = require(&#x27;bar&#x27;);\nfoo();</code></pre>",
            source: "```js\nvar foo = require(\'bar\');\nfoo();\n```",
            ..Default::default()
        },
    ];

    let highlighter = Highlights::new();
    let options = RenderOptions { strict: true, code_mode: CodeMode::Legacy };
    for test_case in test_cases {
        let html_string = render_source(test_case.source, &highlighter, &options);
        assert_eq!(
            test_case.expected, html_string,
            "\nTest '{}' failed.\nExpected: {}\nGot: {}\n",
            test_case.desc, test_case.expected, html_string,
        );
    }
}
