use leptos_markdown::clean_leptos_markup;
use leptos_markdown::Highlights;
use leptos_markdown::Markdown;
use leptos_markdown::Node;
use leptos_markdown::RenderError;
use leptos_markdown::RenderOptions;
use leptos_markdown::TestCase;

fn document() -> Node {
    Node::Root {
        children: vec![Node::Paragraph { children: vec![Node::Text { value: "Test".to_string() }] }],
    }
}

fn wrapped(class: Option<&str>) -> String {
    let highlighter = Highlights::new();
    let class = class.map(|c| c.to_string());
    Markdown(&document(), &class, &highlighter, &RenderOptions::default())
        .expect("renders")
        .render_to_string()
}

#[test]
fn marker_comments_are_removed() {
    let input = "<div><!--leptos-view|src-app.rs-10--><p>Hi</p><!--hk=_0-0-0-2o|leptos-dyn-child-start-->x<!--hk=_0-0-0-2c|leptos-dyn-child-end--><!--hk=_0-1o|leptos-<>-start-->y<!--hk=_0-1c|leptos-<>-end--></div>";
    assert_eq!(clean_leptos_markup(input), Ok("<div><p>Hi</p>xy</div>".to_string()));
}

#[test]
fn hydration_keys_are_removed() {
    let input = "<div data-hk=\"0-0-0-1\"><p class=\"a\"  data-hk=\"0-0-0-2\">Hi</p></div>";
    assert_eq!(clean_leptos_markup(input), Ok("<div><p class=\"a\">Hi</p></div>".to_string()));
}

#[test]
fn other_markup_is_left_alone() {
    let input = "<p>Test <!-- a comment --> data-hk=none</p>";
    assert_eq!(clean_leptos_markup(input), Ok(input.to_string()));
    assert_eq!(clean_leptos_markup(""), Ok(String::new()));
}

#[test]
fn wrapper_has_the_base_class() {
    assert_eq!(wrapped(None), "<div class=\"markdown-content\"><p>Test</p></div>");
    assert_eq!(wrapped(Some("")), "<div class=\"markdown-content\"><p>Test</p></div>");
    assert_eq!(wrapped(Some("  \t")), "<div class=\"markdown-content\"><p>Test</p></div>");
}

#[test]
fn wrapper_appends_the_callers_class() {
    assert_eq!(wrapped(Some("prose")), "<div class=\"markdown-content prose\"><p>Test</p></div>");
    assert_eq!(
        wrapped(Some("prose dark ")),
        "<div class=\"markdown-content prose dark\"><p>Test</p></div>"
    );
    assert_eq!(wrapped(Some(" a")), "<div class=\"markdown-content  a\"><p>Test</p></div>");
}

#[test]
fn wrapper_passes_failures_on() {
    let highlighter = Highlights::new();
    let node = Node::Root { children: vec![Node::Unsupported { kind: "list".to_string() }] };
    assert_eq!(
        Markdown(&node, &None, &highlighter, &RenderOptions::default()),
        Err(RenderError::UnsupportedConstruct { what: "list".to_string() })
    );
}

#[test]
fn test_case_defaults_to_empty_texts() {
    let case = TestCase { desc: "only a description", ..Default::default() };
    assert_eq!(case.desc, "only a description");
    assert_eq!(case.expected, "");
    assert_eq!(case.source, "");
}
