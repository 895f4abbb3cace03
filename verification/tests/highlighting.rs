use leptos_markdown::code_blocks;
use leptos_markdown::highlight::code_block;
use leptos_markdown::lines_to_feed;
use leptos_markdown::render_node;
use leptos_markdown::text::escape;
use leptos_markdown::text::split_lines;
use leptos_markdown::text::trim_text;
use leptos_markdown::CodeBlock;
use leptos_markdown::Highlighter;
use leptos_markdown::Highlights;
use leptos_markdown::MarkupNode;
use leptos_markdown::Node;
use leptos_markdown::RenderError;
use leptos_markdown::RenderOptions;
use leptos_markdown::TokenMarkup;
use syntect::html::ClassStyle;
use syntect::html::ClassedHTMLGenerator;

const BADGE: &str =
    "<div class=\"absolute top-2 right-2 px-2 py-1 text-sm rounded bg-gray-700 text-gray-300\">";
const PRE: &str = "<pre class=\"p-4 rounded-lg bg-gray-900 text-gray-100 overflow-x-auto\">";
const R_TOKENS: &str =
    "<span class=\"source r\">x <span class=\"keyword operator arithmetic r\">+</span> y\n</span>";
const RUST_SOURCE: &str = "// Rust source\nfn main() {\n    println!(\"Hello World!\");\n}\n";
const RUST_TOKENS: &str = "<span class=\"source rust\"><span class=\"comment line double-slash rust\"><span class=\"punctuation definition comment rust\">//</span> Rust source\n</span><span class=\"meta function rust\"><span class=\"meta function rust\"><span class=\"storage type function rust\">fn</span> </span><span class=\"entity name function rust\">main</span></span><span class=\"meta function rust\"><span class=\"meta function parameters rust\"><span class=\"punctuation section parameters begin rust\">(</span></span><span class=\"meta function rust\"><span class=\"meta function parameters rust\"><span class=\"punctuation section parameters end rust\">)</span></span></span></span><span class=\"meta function rust\"> </span><span class=\"meta function rust\"><span class=\"meta block rust\"><span class=\"punctuation section block begin rust\">{</span>\n    <span class=\"support macro rust\">println!</span><span class=\"meta group rust\"><span class=\"punctuation section group begin rust\">(</span></span><span class=\"meta group rust\"><span class=\"string quoted double rust\"><span class=\"punctuation definition string begin rust\">&quot;</span>Hello World!<span class=\"punctuation definition string end rust\">&quot;</span></span></span><span class=\"meta group rust\"><span class=\"punctuation section group end rust\">)</span></span><span class=\"punctuation terminator rust\">;</span>\n</span><span class=\"meta block rust\"><span class=\"punctuation section block end rust\">}</span></span></span>\n</span>";

fn highlighter() -> Highlighter {
    Highlighter::new().expect("bundled syntaxes and theme")
}

fn some(text: &str) -> Option<String> {
    Some(text.to_string())
}

fn tokenize(code: &str, lang: &Option<String>) -> String {
    let highlighter = highlighter();
    let mut generator = ClassedHTMLGenerator::new_with_class_style(
        highlighter.syntax_for(lang),
        highlighter.syntax_set(),
        ClassStyle::Spaced,
    );
    for line in lines_to_feed(code) {
        generator
            .parse_html_for_line_which_includes_newline(&line)
            .expect("parses");
    }
    generator.finalize()
}

fn highlights_for(document: &Node) -> Highlights {
    let blocks = code_blocks(document);
    let markup: Vec<String> =
        blocks.iter().map(|block| tokenize(&block.code, &block.lang)).collect();
    Highlights::from_markup(&blocks, &markup)
}

fn code(value: &str, lang: Option<&str>) -> Node {
    Node::Code { value: value.to_string(), lang: lang.map(|l| l.to_string()), meta: None }
}

#[test]
fn lines_to_feed_end_in_line_feeds() {
    let none: Vec<String> = vec![];
    assert_eq!(lines_to_feed(""), none);
    assert_eq!(lines_to_feed("a"), vec!["a\n"]);
    assert_eq!(lines_to_feed("a\nb\n"), vec!["a\n", "b\n"]);
    assert_eq!(lines_to_feed("a\r\n\nb"), vec!["a\n", "\n", "b\n"]);
}

#[test]
fn tokenizes_one_line() {
    assert_eq!(tokenize("x + y", &some("r")), R_TOKENS);
}

#[test]
fn tokenizes_several_lines() {
    assert_eq!(tokenize(RUST_SOURCE, &some("rs")), RUST_TOKENS);
}

#[test]
fn carriage_returns_before_line_feeds_are_dropped() {
    let unix = tokenize("x + y\nx + y\n", &some("r"));
    let dos = tokenize("x + y\r\nx + y\r\n", &some("r"));
    assert_eq!(unix, dos);
    let unterminated = tokenize("x + y\nx + y", &some("r"));
    assert_eq!(unix, unterminated);
}

#[test]
fn unknown_language_is_plain_text() {
    let plain = tokenize("x + y", &None);
    let unknown = tokenize("x + y", &some("no-such-language"));
    assert_eq!(plain, unknown);
    assert_eq!(plain, "<span class=\"text plain\">x + y\n</span>");
    assert_ne!(plain, R_TOKENS);
}

#[test]
fn syntax_is_resolved_by_extension() {
    let highlighter = highlighter();
    assert_eq!(highlighter.syntax_for(&some("rs")).name, "Rust");
    assert_eq!(highlighter.syntax_for(&some("RS")).name, "Rust");
    assert_eq!(highlighter.syntax_for(&some("r")).name, "R");
    assert_eq!(highlighter.syntax_for(&some("no-such-language")).name, "Plain Text");
    assert_eq!(highlighter.syntax_for(&some("")).name, "Plain Text");
    assert_eq!(highlighter.syntax_for(&None).name, "Plain Text");
    assert!(highlighter.syntax_set().syntaxes().len() > 1);
}

#[test]
fn empty_code_has_no_tokens() {
    assert_eq!(tokenize("", &some("r")), "");
}

#[test]
fn code_blocks_come_in_document_order() {
    let document = Node::Root {
        children: vec![
            code("a", Some("r")),
            Node::Blockquote {
                children: vec![
                    Node::Paragraph { children: vec![Node::Text { value: "t".to_string() }] },
                    code("b", None),
                    Node::CustomElement {
                        name: None,
                        attributes: vec![],
                        children: vec![code("c", Some("rs"))],
                    },
                ],
            },
            Node::InlineCode { value: "not a block".to_string() },
            code("a", Some("r")),
        ],
    };
    assert_eq!(
        code_blocks(&document),
        vec![
            CodeBlock { code: "a".to_string(), lang: some("r") },
            CodeBlock { code: "b".to_string(), lang: None },
            CodeBlock { code: "c".to_string(), lang: some("rs") },
            CodeBlock { code: "a".to_string(), lang: some("r") },
        ]
    );
    let none: Vec<CodeBlock> = vec![];
    assert_eq!(code_blocks(&Node::Break), none);
    assert_eq!(code_blocks(&code("x", None)), vec![CodeBlock { code: "x".to_string(), lang: None }]);
}

#[test]
fn table_finds_a_block_by_code_and_language() {
    let mut table = Highlights::new();
    assert_eq!(table.tokens("x", &None), None);
    table.record("x", &some("r"), "<r>".to_string());
    table.record("x", &None, "<plain>".to_string());
    table.record("y", &some("r"), "<y>".to_string());
    assert_eq!(table.tokens("x", &some("r")), some("<r>"));
    assert_eq!(table.tokens("x", &None), some("<plain>"));
    assert_eq!(table.tokens("y", &some("r")), some("<y>"));
    assert_eq!(table.tokens("y", &None), None);
    assert_eq!(table.tokens("x", &some("R")), None);
    assert_eq!(table.tokens("", &some("r")), None);
}

#[test]
fn table_keeps_the_first_record_of_a_block() {
    let mut table = Highlights::new();
    table.record("x", &some("r"), "first".to_string());
    table.record("x", &some("r"), "second".to_string());
    assert_eq!(table.tokens("x", &some("r")), some("first"));
    assert_eq!(
        table.records,
        vec![
            TokenMarkup { code: "x".to_string(), lang: some("r"), markup: "first".to_string() },
            TokenMarkup { code: "x".to_string(), lang: some("r"), markup: "second".to_string() },
        ]
    );
}

#[test]
fn table_is_made_of_blocks_and_their_markup() {
    let blocks = vec![
        CodeBlock { code: "a".to_string(), lang: some("r") },
        CodeBlock { code: "b".to_string(), lang: None },
        CodeBlock { code: "a".to_string(), lang: some("r") },
    ];
    let markup = vec!["<a>".to_string(), "<b>".to_string(), "<again>".to_string()];
    let table = Highlights::from_markup(&blocks, &markup);
    assert_eq!(table.records.len(), 3);
    assert_eq!(table.tokens("a", &some("r")), some("<a>"));
    assert_eq!(table.tokens("b", &None), some("<b>"));
    let short = Highlights::from_markup(&blocks, &vec!["<a>".to_string()]);
    assert_eq!(
        short.records,
        vec![TokenMarkup { code: "a".to_string(), lang: some("r"), markup: "<a>".to_string() }]
    );
    assert_eq!(short.tokens("b", &None), None);
    let long = Highlights::from_markup(&vec![], &markup);
    assert_eq!(long.records.len(), 0);
}

#[test]
fn block_without_tokens_fails() {
    let table = Highlights::new();
    assert_eq!(table.highlight("x + y", &some("r"), &None), Err(RenderError::HighlighterFatal));
    let node = Node::Root { children: vec![code("x + y", Some("r"))] };
    assert_eq!(
        render_node(&node, &table, &RenderOptions::default()),
        Err(RenderError::HighlighterFatal)
    );
    let mut other = Highlights::new();
    other.record("x + y", &None, tokenize("x + y", &None));
    assert_eq!(
        render_node(&node, &other, &RenderOptions::default()),
        Err(RenderError::HighlighterFatal)
    );
}

#[test]
fn highlighted_block_with_language_and_meta() {
    let mut table = Highlights::new();
    table.record("x + y", &some("r"), tokenize("x + y", &some("r")));
    let block = table.highlight("x + y", &some("r"), &some("{1}")).expect("has tokens");
    let expected = format!(
        "<div class=\"relative\">{BADGE}r</div>{PRE}<code class=\"block\" data-language=\"r\" data-meta=\"{{1}}\">{R_TOKENS}</code></pre></div>"
    );
    assert_eq!(block.render_to_string(), expected);
}

#[test]
fn highlighted_block_without_language_has_no_badge() {
    let mut table = Highlights::new();
    table.record("x + y", &None, tokenize("x + y", &None));
    let block = table.highlight("x + y", &None, &None).expect("has tokens");
    let expected = format!(
        "<div class=\"relative\">{PRE}<code class=\"block\"><span class=\"text plain\">x + y\n</span></code></pre></div>"
    );
    assert_eq!(block.render_to_string(), expected);
}

#[test]
fn code_node_is_highlighted_by_default() {
    let node = code("x + y", Some("r"));
    let table = highlights_for(&node);
    let rendered = render_node(&node, &table, &RenderOptions::default()).expect("renders");
    let direct = table.highlight("x + y", &some("r"), &None).expect("has tokens");
    assert_eq!(rendered, direct);
    let expected = format!(
        "<div class=\"relative\">{BADGE}r</div>{PRE}<code class=\"block\" data-language=\"r\">{R_TOKENS}</code></pre></div>"
    );
    assert_eq!(rendered.render_to_string(), expected);
}

#[test]
fn document_with_several_code_blocks_renders() {
    let document = Node::Root {
        children: vec![
            Node::Heading { depth: 7, children: vec![code("x + y", Some("r"))] },
            code("x + y", None),
            code("x + y", Some("r")),
        ],
    };
    let table = highlights_for(&document);
    let html = render_node(&document, &table, &RenderOptions::default())
        .expect("renders")
        .render_to_string();
    let with_language = format!(
        "<div class=\"relative\">{BADGE}r</div>{PRE}<code class=\"block\" data-language=\"r\">{R_TOKENS}</code></pre></div>"
    );
    let without = format!(
        "<div class=\"relative\">{PRE}<code class=\"block\"><span class=\"text plain\">x + y\n</span></code></pre></div>"
    );
    assert_eq!(html, format!("<h6>{with_language}</h6>{without}{with_language}"));
}

#[test]
fn code_block_wraps_given_markup() {
    let block = code_block("<b>&</b>".to_string(), &None, &some("m"));
    let expected = format!(
        "<div class=\"relative\">{PRE}<code class=\"block\" data-meta=\"m\"><b>&</b></code></pre></div>"
    );
    assert_eq!(block.render_to_string(), expected);
}

#[test]
fn highlighting_twice_gives_the_same() {
    let node = code(RUST_SOURCE, Some("rs"));
    let first = highlights_for(&node);
    let second = highlights_for(&node);
    let a = first.highlight(RUST_SOURCE, &some("rs"), &None).expect("has tokens");
    let b = first.highlight(RUST_SOURCE, &some("rs"), &None).expect("has tokens");
    let c = second.highlight(RUST_SOURCE, &some("rs"), &None).expect("has tokens");
    assert_eq!(a, b);
    assert_eq!(a.render_to_string(), b.render_to_string());
    assert_eq!(a.render_to_string(), c.render_to_string());
    let one = highlighter();
    let other = highlighter();
    assert_eq!(one.stylesheet(), one.stylesheet());
    assert_eq!(one.stylesheet(), other.stylesheet());
}

#[test]
fn stylesheet_is_generated_from_the_theme() {
    let highlighter = highlighter();
    let css = highlighter.stylesheet();
    assert!(!css.is_empty());
    assert!(css.starts_with("/*\n * theme \""));
    assert!(css.contains("generated by syntect"));
    assert!(css.contains(".code {\n"));
}

#[test]
fn style_element_holds_the_stylesheet() {
    let highlighter = highlighter();
    let style = leptos_markdown::SyntaxHighlightingStyle(&highlighter);
    assert_eq!(
        style,
        MarkupNode::Element {
            tag: "style".to_string(),
            attributes: vec![],
            children: vec![MarkupNode::Raw { html: highlighter.stylesheet().to_string() }],
        }
    );
    assert_eq!(
        style.render_to_string(),
        format!("<style>{}</style>", highlighter.stylesheet())
    );
}

#[test]
fn lines_are_split_at_line_feeds() {
    let none: Vec<String> = vec![];
    assert_eq!(split_lines(""), none);
    assert_eq!(split_lines("a"), vec!["a"]);
    assert_eq!(split_lines("a\n"), vec!["a"]);
    assert_eq!(split_lines("a\nb"), vec!["a", "b"]);
    assert_eq!(split_lines("a\r\nb\r\n"), vec!["a", "b"]);
    assert_eq!(split_lines("a\n\nb"), vec!["a", "", "b"]);
    assert_eq!(split_lines("\n"), vec![""]);
    assert_eq!(split_lines("\r\n"), vec![""]);
    assert_eq!(split_lines("a\r"), vec!["a\r"]);
    assert_eq!(split_lines("a\rb\n"), vec!["a\rb"]);
    assert_eq!(split_lines("a\r\r\n"), vec!["a\r"]);
    for sample in ["", "a", "a\n", "a\nb", "a\r\nb\r\n", "a\n\nb", "\n", "a\r", "a\r\r\n"] {
        let expected: Vec<String> = sample.lines().map(|line| line.to_string()).collect();
        assert_eq!(split_lines(sample), expected);
    }
}

#[test]
fn escape_replaces_the_five_characters() {
    assert_eq!(escape(""), "");
    assert_eq!(escape("plain text / ok"), "plain text / ok");
    assert_eq!(escape("&<>\"'"), "&amp;&lt;&gt;&quot;&#x27;");
    assert_eq!(escape("&amp;"), "&amp;amp;");
}

#[test]
fn trim_drops_white_space_at_both_ends() {
    assert_eq!(trim_text(""), "");
    assert_eq!(trim_text("   "), "");
    assert_eq!(trim_text("a"), "a");
    assert_eq!(trim_text("  a b \t\n"), "a b");
    assert_eq!(trim_text("\u{a0}x\u{2003}"), "x");
    for sample in ["", " ", "a ", " a", " a  b ", "\n\ta\r\n"] {
        assert_eq!(trim_text(sample), sample.trim());
    }
}
