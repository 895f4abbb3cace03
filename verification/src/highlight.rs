//! Code blocks: the lines that go to the tokenizing engine, the table of the
//! token markup that came back, the elements around it, the stylesheet that
//! colours its classes, and the plain form without tokenization.
//!
//! The engine parses outside this library: while it parses it compiles
//! patterns, some of them put together from the text it reads, and it panics on
//! one that its regex engine refuses. For each block that [`code_blocks`]
//! lists, the caller runs it with the syntax that [`Highlighter::syntax_for`]
//! resolves on the lines that [`lines_to_feed`] gives, and records what it
//! returns in a [`Highlights`] table.

use crate::error::outcome_view;
use crate::error::RenderError;
use crate::error::RenderErrorView;
use crate::markup::attribute;
use crate::markup::element;
use crate::markup::literal_attribute;
use crate::markup::markup_attribute_views;
use crate::markup::markup_views;
use crate::markup::no_attributes;
use crate::markup::no_nodes;
use crate::markup::optional_attribute;
use crate::markup::push_attribute;
use crate::markup::push_node;
use crate::markup::MarkupNode;
use crate::markup::MarkupView;
use crate::node::node_views;
use crate::node::Node;
use crate::node::NodeView;
use crate::text::lines_of;
use crate::text::same_text;
use crate::text::split_lines;
use syntect::highlighting::Theme;
use syntect::highlighting::ThemeSet;
use syntect::html::ClassStyle;
use syntect::parsing::SyntaxReference;
use syntect::parsing::SyntaxSet;
use vstd::prelude::*;

verus! {

/// The key of the colour theme in the bundled theme set.
pub const THEME_NAME: &'static str = "InspiredGitHub";

/// A set of syntax definitions of the highlighting engine.
#[verifier::external_type_specification]
#[verifier::external_body]
pub struct ExSyntaxSet(SyntaxSet);

/// One syntax definition, usable with the set it was found in.
#[verifier::external_type_specification]
#[verifier::external_body]
pub struct ExSyntaxReference(SyntaxReference);

/// A set of colour themes of the highlighting engine.
#[verifier::external_type_specification]
#[verifier::external_body]
pub struct ExThemeSet(ThemeSet);

/// One colour theme.
#[verifier::external_type_specification]
#[verifier::external_body]
pub struct ExTheme(Theme);

/// The engine's error.
#[verifier::external_type_specification]
#[verifier::external_body]
pub struct ExSyntectError(syntect::Error);

/// Holds of the syntax set that `SyntaxSet::load_defaults_newlines` returns.
pub uninterp spec fn is_bundled_syntax_set(set: SyntaxSet) -> bool;

/// What `SyntaxSet::find_syntax_by_extension` finds in `set` for `extension`.
pub uninterp spec fn syntax_by_extension(set: SyntaxSet, extension: Seq<char>) -> Option<
    SyntaxReference,
>;

/// What `SyntaxSet::find_syntax_plain_text` returns for `set`.
pub uninterp spec fn plain_text_syntax(set: SyntaxSet) -> SyntaxReference;

/// Holds of the theme set that `ThemeSet::load_defaults` returns.
pub uninterp spec fn is_bundled_theme_set(set: ThemeSet) -> bool;

/// The theme stored in `set` under the key `name`.
pub uninterp spec fn theme_named(set: ThemeSet, name: Seq<char>) -> Option<Theme>;

/// The stylesheet that `css_for_theme_with_class_style` writes for `theme` with
/// space-separated class names, where it succeeds.
pub uninterp spec fn theme_css(theme: Theme) -> Option<Seq<char>>;

/// Calls `SyntaxSet::load_defaults_newlines`, which decodes the syntax
/// definitions compiled into the engine. Nothing is claimed of the set but that
/// it is this one.
#[verifier::external_body]
fn load_bundled_syntaxes() -> (set: SyntaxSet)
    ensures
        is_bundled_syntax_set(set),
{
    SyntaxSet::load_defaults_newlines()
}

/// Calls `SyntaxSet::find_syntax_by_extension`, a search through the set that
/// depends on the set and the extension alone.
#[verifier::external_body]
fn find_syntax_by_extension<'a>(set: &'a SyntaxSet, extension: &str) -> (found: Option<
    &'a SyntaxReference,
>)
    ensures
        found matches Some(syntax) ==> syntax_by_extension(*set, extension@) == Some(*syntax),
        found is None ==> syntax_by_extension(*set, extension@) is None,
{
    set.find_syntax_by_extension(extension)
}

/// Calls `SyntaxSet::find_syntax_plain_text`, which panics on a set without a
/// plain-text syntax. The bundled set holds one, so only that set is admitted.
#[verifier::external_body]
fn find_syntax_plain_text(set: &SyntaxSet) -> (syntax: &SyntaxReference)
    requires
        is_bundled_syntax_set(*set),
    ensures
        *syntax == plain_text_syntax(*set),
{
    set.find_syntax_plain_text()
}

/// Calls `ThemeSet::load_defaults`, which decodes the themes compiled into the
/// engine. Nothing is claimed of the set but that it is this one.
#[verifier::external_body]
fn load_bundled_themes() -> (set: ThemeSet)
    ensures
        is_bundled_theme_set(set),
{
    ThemeSet::load_defaults()
}

/// Looks `name` up in the public map `themes` of the theme set.
#[verifier::external_body]
fn find_theme<'a>(set: &'a ThemeSet, name: &str) -> (found: Option<&'a Theme>)
    ensures
        found matches Some(theme) ==> theme_named(*set, name@) == Some(*theme),
        found is None ==> theme_named(*set, name@) is None,
{
    set.themes.get(name)
}

/// Calls `css_for_theme_with_class_style` with `ClassStyle::Spaced`. The
/// stylesheet depends on the theme alone, and it is never empty: the call
/// writes a comment that names the theme before anything else.
#[verifier::external_body]
fn css_for_theme(theme: &Theme) -> (css: Result<String, syntect::Error>)
    ensures
        css matches Ok(text) ==> theme_css(*theme) == Some(text@),
        css matches Ok(text) ==> text@.len() > 0,
        css is Err ==> theme_css(*theme) is None,
{
    syntect::html::css_for_theme_with_class_style(theme, ClassStyle::Spaced)
}

/// Each line with a line feed at its end.
pub open spec fn terminated(lines: Seq<Seq<char>>) -> Seq<Seq<char>> {
    Seq::new(lines.len(), |i: int| lines[i].push('\n'))
}

/// The badge that names the language of a code block.
pub open spec fn language_badge(lang: Option<Seq<char>>) -> Seq<MarkupView> {
    match lang {
        Some(l) => seq![
            MarkupView::Element {
                tag: "div"@,
                attributes: seq![
                    ("class"@, "absolute top-2 right-2 px-2 py-1 text-sm rounded bg-gray-700 text-gray-300"@),
                ],
                children: seq![MarkupView::Text { value: l }],
            },
        ],
        None => Seq::empty(),
    }
}

/// The markup of a highlighted code block: a wrapper that holds the language
/// badge, where a language is given, and a `pre` with a `code` element whose
/// data attributes mirror language and meta and whose content is the token
/// markup, taken as it is.
pub open spec fn code_block_view(
    markup: Seq<char>,
    lang: Option<Seq<char>>,
    meta: Option<Seq<char>>,
) -> MarkupView {
    let code = MarkupView::Element {
        tag: "code"@,
        attributes: seq![("class"@, "block"@)] + optional_attribute("data-language"@, lang)
            + optional_attribute("data-meta"@, meta),
        children: seq![MarkupView::Raw { html: markup }],
    };
    let pre = MarkupView::Element {
        tag: "pre"@,
        attributes: seq![
            ("class"@, "p-4 rounded-lg bg-gray-900 text-gray-100 overflow-x-auto"@),
        ],
        children: seq![code],
    };
    MarkupView::Element {
        tag: "div"@,
        attributes: seq![("class"@, "relative"@)],
        children: language_badge(lang) + seq![pre],
    }
}

/// The legacy markup of a code block, without tokenization: `pre` around `code`, the
/// language as a `language-` class where one is given, the code as text.
pub open spec fn legacy_code_block_view(code: Seq<char>, lang: Option<Seq<char>>) -> MarkupView {
    let class = match lang {
        Some(l) => Some("language-"@ + l),
        None => None,
    };
    MarkupView::Element {
        tag: "pre"@,
        attributes: Seq::empty(),
        children: seq![
            MarkupView::Element {
                tag: "code"@,
                attributes: optional_attribute("class"@, class),
                children: seq![MarkupView::Text { value: code }],
            },
        ],
    }
}

/// Puts token markup into the elements of a highlighted code block.
pub fn code_block(markup: String, lang: &Option<String>, meta: &Option<String>) -> (block:
    MarkupNode)
    ensures
        block@ == code_block_view(markup@, lang.deep_view(), meta.deep_view()),
{
    let mut code_attributes = no_attributes();
    push_attribute(&mut code_attributes, literal_attribute("class", "block"));
    if let Some(l) = lang {
        push_attribute(&mut code_attributes, attribute("data-language", l.clone()));
    }
    if let Some(m) = meta {
        push_attribute(&mut code_attributes, attribute("data-meta", m.clone()));
    }
    proof {
        assert(markup_attribute_views(code_attributes@) =~= seq![
            ("class"@, "block"@),
        ] + optional_attribute("data-language"@, lang.deep_view()) + optional_attribute(
            "data-meta"@,
            meta.deep_view(),
        ));
    }
    let ghost html = markup@;
    let mut code_children = no_nodes();
    push_node(&mut code_children, MarkupNode::Raw { html: markup });
    let code = element("code", code_attributes, code_children);
    let mut pre_attributes = no_attributes();
    push_attribute(
        &mut pre_attributes,
        literal_attribute("class", "p-4 rounded-lg bg-gray-900 text-gray-100 overflow-x-auto"),
    );
    let mut pre_children = no_nodes();
    push_node(&mut pre_children, code);
    let pre = element("pre", pre_attributes, pre_children);
    let mut children = no_nodes();
    if let Some(l) = lang {
        let mut badge_attributes = no_attributes();
        push_attribute(
            &mut badge_attributes,
            literal_attribute(
                "class",
                "absolute top-2 right-2 px-2 py-1 text-sm rounded bg-gray-700 text-gray-300",
            ),
        );
        let mut badge_children = no_nodes();
        push_node(&mut badge_children, MarkupNode::Text { value: l.clone() });
        push_node(&mut children, element("div", badge_attributes, badge_children));
    }
    push_node(&mut children, pre);
    let mut attributes = no_attributes();
    push_attribute(&mut attributes, literal_attribute("class", "relative"));
    proof {
        assert(markup_views(code_children@) =~= seq![
            MarkupView::Raw { html },
        ]);
        assert(markup_views(pre_children@) =~= seq![code@]);
        assert(markup_attribute_views(pre_attributes@) =~= seq![
            ("class"@, "p-4 rounded-lg bg-gray-900 text-gray-100 overflow-x-auto"@),
        ]);
        assert(markup_views(children@) =~= language_badge(lang.deep_view())
            + seq![pre@]);
        assert(markup_attribute_views(attributes@) =~= seq![
            ("class"@, "relative"@),
        ]);
    }
    element("div", attributes, children)
}

/// The code block in its legacy form, without tokenization.
pub fn legacy_code_block(code: &str, lang: &Option<String>) -> (block: MarkupNode)
    ensures
        block@ == legacy_code_block_view(code@, lang.deep_view()),
{
    let mut code_attributes = no_attributes();
    if let Some(l) = lang {
        let mut class = String::from_str("language-");
        class.append(l.as_str());
        push_attribute(&mut code_attributes, attribute("class", class));
    }
    let mut code_children = no_nodes();
    push_node(&mut code_children, MarkupNode::Text { value: String::from_str(code) });
    let inner = element("code", code_attributes, code_children);
    let mut children = no_nodes();
    push_node(&mut children, inner);
    proof {
        assert(markup_views(code_children@) =~= seq![
            MarkupView::Text { value: code@ },
        ]);
        assert(markup_views(children@) =~= seq![inner@]);
        assert(markup_attribute_views(code_attributes@) =~= optional_attribute(
            "class"@,
            match lang.deep_view() {
                Some(l) => Some("language-"@ + l),
                None => None,
            },
        ));
    }
    element("pre", no_attributes(), children)
}

/// The lines of a code block as the engine takes them: the lines of the code,
/// each with a line feed at its end.
pub fn lines_to_feed(code: &str) -> (lines: Vec<String>)
    ensures
        lines.deep_view() == terminated(lines_of(code@)),
{
    let plain = split_lines(code);
    let mut lines: Vec<String> = Vec::new();
    let mut i: usize = 0;
    while i < plain.len()
        invariant
            i <= plain.len(),
            plain.deep_view() == lines_of(code@),
            lines.deep_view() == terminated(lines_of(code@)).take(i as int),
        decreases plain.len() - i,
    {
        let mut line = plain[i].clone();
        line.push('\n');
        let ghost before = lines.deep_view();
        lines.push(line);
        proof {
            assert(plain.deep_view()[i as int] == plain[i as int]@);
            assert(lines.deep_view() =~= before.push(line@));
            assert(terminated(lines_of(code@)).take(i + 1) =~= terminated(lines_of(code@)).take(
                i as int,
            ).push(line@));
        }
        i += 1;
    }
    proof {
        assert(terminated(lines_of(code@)).take(i as int) =~= terminated(lines_of(code@)));
    }
    lines
}

/// The bundled syntax definitions and the stylesheet of the fixed theme. It is
/// made once and only read afterwards.
pub struct Highlighter {
    syntaxes: SyntaxSet,
    css: String,
}

impl Highlighter {
    #[verifier::type_invariant]
    spec fn loaded(&self) -> bool {
        is_bundled_syntax_set(self.syntaxes) && self.css@.len() > 0
    }

    /// The syntax set that the highlighter holds.
    pub closed spec fn syntaxes(&self) -> SyntaxSet {
        self.syntaxes
    }

    /// The stylesheet that the highlighter carries.
    pub closed spec fn stylesheet_text(&self) -> Seq<char> {
        self.css@
    }

    /// The syntax for a language tag: the one found for the tag taken as a
    /// file extension, else plain text.
    pub open spec fn syntax_of(&self, lang: Option<Seq<char>>) -> SyntaxReference {
        match lang {
            Some(l) => match syntax_by_extension(self.syntaxes(), l) {
                Some(syntax) => syntax,
                None => plain_text_syntax(self.syntaxes()),
            },
            None => plain_text_syntax(self.syntaxes()),
        }
    }

    /// Whether the theme [`THEME_NAME`] of `themes` has the stylesheet `css`.
    pub open spec fn is_stylesheet_of(themes: ThemeSet, css: Seq<char>) -> bool {
        theme_named(themes, THEME_NAME@) matches Some(theme) && theme_css(theme) == Some(css)
    }

    /// Whether `themes` lacks the theme [`THEME_NAME`] or the engine cannot
    /// write its stylesheet.
    pub open spec fn lacks_stylesheet(themes: ThemeSet) -> bool {
        theme_named(themes, THEME_NAME@) matches Some(theme) ==> theme_css(theme) is None
    }

    /// Loads the bundled syntax definitions and themes and writes the
    /// stylesheet of the theme [`THEME_NAME`]. The highlighter holds the
    /// bundled syntaxes and carries that stylesheet. The call fails where the
    /// bundled themes lack the theme or its stylesheet cannot be written.
    pub fn new() -> (made: Result<Highlighter, RenderError>)
        ensures
            match made {
                Ok(highlighter) => {
                    &&& is_bundled_syntax_set(highlighter.syntaxes())
                    &&& highlighter.stylesheet_text().len() > 0
                    &&& exists|themes: ThemeSet|
                        is_bundled_theme_set(themes) && Highlighter::is_stylesheet_of(
                            themes,
                            highlighter.stylesheet_text(),
                        )
                },
                Err(error) => {
                    &&& error@ is HighlighterFatal
                    &&& exists|themes: ThemeSet|
                        is_bundled_theme_set(themes) && Highlighter::lacks_stylesheet(themes)
                },
            },
    {
        let syntaxes = load_bundled_syntaxes();
        let themes = load_bundled_themes();
        let made = Highlighter::from_sets(syntaxes, &themes);
        proof {
            if made is Ok {
                assert(is_bundled_theme_set(themes) && Highlighter::is_stylesheet_of(
                    themes,
                    made->Ok_0.stylesheet_text(),
                ));
            } else {
                assert(is_bundled_theme_set(themes) && Highlighter::lacks_stylesheet(themes));
            }
        }
        made
    }

    /// A highlighter over `syntaxes` with the stylesheet of the theme
    /// [`THEME_NAME`] of `themes`.
    fn from_sets(syntaxes: SyntaxSet, themes: &ThemeSet) -> (made: Result<Highlighter, RenderError>)
        requires
            is_bundled_syntax_set(syntaxes),
        ensures
            match made {
                Ok(highlighter) => {
                    &&& highlighter.syntaxes() == syntaxes
                    &&& highlighter.stylesheet_text().len() > 0
                    &&& Highlighter::is_stylesheet_of(*themes, highlighter.stylesheet_text())
                },
                Err(error) => {
                    &&& error@ is HighlighterFatal
                    &&& Highlighter::lacks_stylesheet(*themes)
                },
            },
    {
        match find_theme(themes, THEME_NAME) {
            Some(theme) => match css_for_theme(theme) {
                Ok(css) => Ok(Highlighter { syntaxes, css }),
                Err(_) => Err(RenderError::HighlighterFatal),
            },
            None => Err(RenderError::HighlighterFatal),
        }
    }

    /// The stylesheet that maps the emitted class names to colours. A page
    /// includes it once. It is the same text at every call and never empty.
    pub fn stylesheet(&self) -> (css: &str)
        ensures
            css@ == self.stylesheet_text(),
            css@.len() > 0,
    {
        proof {
            use_type_invariant(self);
        }
        self.css.as_str()
    }

    /// The syntax definitions that the engine parses with.
    pub fn syntax_set(&self) -> (set: &SyntaxSet)
        ensures
            *set == self.syntaxes(),
            is_bundled_syntax_set(*set),
    {
        proof {
            use_type_invariant(self);
        }
        &self.syntaxes
    }

    /// Resolves the syntax for a language tag: the syntax that the set holds
    /// for the tag taken as a file extension; plain text where it holds none
    /// or no tag is given. The lookup never fails.
    pub fn syntax_for(&self, lang: &Option<String>) -> (syntax: &SyntaxReference)
        ensures
            *syntax == self.syntax_of(lang.deep_view()),
    {
        proof {
            use_type_invariant(self);
        }
        match lang {
            Some(l) => match find_syntax_by_extension(&self.syntaxes, l.as_str()) {
                Some(found) => found,
                None => find_syntax_plain_text(&self.syntaxes),
            },
            None => find_syntax_plain_text(&self.syntaxes),
        }
    }
}

/// A code block as it is handed to the engine: its code and its language tag.
#[derive(Debug, PartialEq, Eq)]
pub struct CodeBlock {
    pub code: String,
    pub lang: Option<String>,
}

impl View for CodeBlock {
    type V = (Seq<char>, Option<Seq<char>>);

    open spec fn view(&self) -> (Seq<char>, Option<Seq<char>>) {
        (self.code@, self.lang.deep_view())
    }
}

/// The views of a list of code blocks, in order.
pub open spec fn code_block_views(blocks: Seq<CodeBlock>) -> Seq<(Seq<char>, Option<Seq<char>>)> {
    Seq::new(blocks.len(), |i: int| blocks[i]@)
}

/// The code blocks of a tree, in document order.
pub open spec fn code_blocks_of(node: NodeView) -> Seq<(Seq<char>, Option<Seq<char>>)>
    decreases node,
{
    match node {
        NodeView::Code { value, lang, .. } => seq![(value, lang)],
        _ => if node.children().len() == 0 {
            Seq::empty()
        } else {
            code_blocks_of_all(node.children())
        },
    }
}

/// The code blocks of a run of trees, in document order.
pub open spec fn code_blocks_of_all(nodes: Seq<NodeView>) -> Seq<(Seq<char>, Option<Seq<char>>)>
    decreases nodes,
{
    if nodes.len() == 0 {
        Seq::empty()
    } else {
        code_blocks_of_all(nodes.drop_last()) + code_blocks_of(nodes.last())
    }
}

fn collect_all(nodes: &Vec<Node>, out: &mut Vec<CodeBlock>)
    ensures
        code_block_views(final(out)@) == code_block_views(old(out)@) + code_blocks_of_all(
            node_views(nodes@),
        ),
    decreases nodes,
{
    let ghost start = code_block_views(out@);
    let ghost all = node_views(nodes@);
    let mut i: usize = 0;
    proof {
        assert(start + code_blocks_of_all(all.take(0)) =~= start);
    }
    while i < nodes.len()
        invariant
            i <= nodes.len(),
            all == node_views(nodes@),
            code_block_views(out@) == start + code_blocks_of_all(all.take(i as int)),
        decreases nodes.len() - i,
    {
        collect_code_blocks(&nodes[i], out);
        proof {
            assert(all.take(i + 1).drop_last() == all.take(i as int));
            assert(all.take(i + 1).last() == nodes[i as int]@);
            assert(code_block_views(out@) =~= start + (code_blocks_of_all(all.take(i as int))
                + code_blocks_of(nodes[i as int]@)));
        }
        i += 1;
    }
    proof {
        assert(all.take(i as int) == all);
    }
}

/// Appends the code blocks of a tree to `out`, in document order.
pub fn collect_code_blocks(node: &Node, out: &mut Vec<CodeBlock>)
    ensures
        code_block_views(final(out)@) == code_block_views(old(out)@) + code_blocks_of(node@),
    decreases node,
{
    let ghost start = code_block_views(out@);
    match node {
        Node::Code { value, lang, .. } => {
            let copy = match lang {
                Some(l) => Some(l.clone()),
                None => None,
            };
            let block = CodeBlock { code: value.clone(), lang: copy };
            out.push(block);
            proof {
                assert(code_block_views(out@) =~= start + seq![(value@, lang.deep_view())]);
            }
        },
        Node::Root { children } => collect_all(children, out),
        Node::Paragraph { children } => collect_all(children, out),
        Node::Blockquote { children } => collect_all(children, out),
        Node::Strong { children } => collect_all(children, out),
        Node::Emphasis { children } => collect_all(children, out),
        Node::Heading { children, .. } => collect_all(children, out),
        Node::Link { children, .. } => collect_all(children, out),
        Node::Table { children } => collect_all(children, out),
        Node::TableRow { children } => collect_all(children, out),
        Node::TableCell { children } => collect_all(children, out),
        Node::CustomElement { children, .. } => collect_all(children, out),
        _ => {
            proof {
                assert(start + code_blocks_of(node@) =~= start);
            }
        },
    }
}

/// The code blocks of a tree, in document order: what the engine is to be run
/// on before the tree is rendered with highlighted code.
pub fn code_blocks(node: &Node) -> (blocks: Vec<CodeBlock>)
    ensures
        code_block_views(blocks@) == code_blocks_of(node@),
{
    let mut blocks: Vec<CodeBlock> = Vec::new();
    proof {
        assert(code_block_views(blocks@) + code_blocks_of(node@) =~= code_blocks_of(node@));
    }
    collect_code_blocks(node, &mut blocks);
    blocks
}

/// What the engine made of one code block: the token markup of `code` under
/// the language tag `lang`.
#[derive(Debug, PartialEq, Eq)]
pub struct TokenMarkup {
    pub code: String,
    pub lang: Option<String>,
    pub markup: String,
}

/// A record of token markup as a mathematical value.
pub ghost struct TokenMarkupView {
    pub code: Seq<char>,
    pub lang: Option<Seq<char>>,
    pub markup: Seq<char>,
}

impl View for TokenMarkup {
    type V = TokenMarkupView;

    open spec fn view(&self) -> TokenMarkupView {
        TokenMarkupView { code: self.code@, lang: self.lang.deep_view(), markup: self.markup@ }
    }
}

/// The token markup that a list of records holds for a code block: that of
/// the first record made for the same code and the same language tag.
pub open spec fn tokens_for(
    records: Seq<TokenMarkupView>,
    code: Seq<char>,
    lang: Option<Seq<char>>,
) -> Option<Seq<char>>
    decreases records.len(),
{
    if records.len() == 0 {
        None
    } else if records[0].code == code && records[0].lang == lang {
        Some(records[0].markup)
    } else {
        tokens_for(records.drop_first(), code, lang)
    }
}

/// What one more record does to the tokens of a block: nothing where the
/// block had tokens, and it gives its markup to the block it was made for.
pub proof fn lemma_tokens_after_record(
    records: Seq<TokenMarkupView>,
    record: TokenMarkupView,
    code: Seq<char>,
    lang: Option<Seq<char>>,
)
    ensures
        tokens_for(records.push(record), code, lang) == match tokens_for(records, code, lang) {
            Some(markup) => Some(markup),
            None => if record.code == code && record.lang == lang {
                Some(record.markup)
            } else {
                None
            },
        },
    decreases records.len(),
{
    let longer = records.push(record);
    if records.len() == 0 {
        assert(longer[0] == record);
        assert(longer.drop_first() =~= Seq::<TokenMarkupView>::empty());
        assert(tokens_for(longer.drop_first(), code, lang) is None);
    } else {
        assert(longer[0] == records[0]);
        assert(longer.drop_first() =~= records.drop_first().push(record));
        lemma_tokens_after_record(records.drop_first(), record, code, lang);
    }
}

/// Whether a table holds token markup for each block of a list.
pub open spec fn covers(highlights: &Highlights, blocks: Seq<(Seq<char>, Option<Seq<char>>)>)
    -> bool {
    forall|block: (Seq<char>, Option<Seq<char>>)| #[trigger]
        blocks.contains(block) ==> highlights.token_markup(block.0, block.1) is Some
}

/// Whether two optional texts are both absent or hold the same characters.
pub fn same_optional_text(a: &Option<String>, b: &Option<String>) -> (same: bool)
    ensures
        same == (a.deep_view() == b.deep_view()),
{
    match (a, b) {
        (Some(x), Some(y)) => same_text(x.as_str(), y.as_str()),
        (None, None) => true,
        _ => false,
    }
}

/// The token markup of the code blocks of a document, as the engine returned
/// it. A block is found again by its code and its language tag, so equal
/// blocks get equal markup, however often they are looked up.
pub struct Highlights {
    pub records: Vec<TokenMarkup>,
}

impl View for Highlights {
    type V = Seq<TokenMarkupView>;

    open spec fn view(&self) -> Seq<TokenMarkupView> {
        Seq::new(self.records@.len(), |i: int| self.records@[i]@)
    }
}

impl Highlights {
    /// The token markup that the table holds for a code block.
    pub open spec fn token_markup(&self, code: Seq<char>, lang: Option<Seq<char>>) -> Option<
        Seq<char>,
    > {
        tokens_for(self@, code, lang)
    }

    /// What [`Highlights::highlight`] returns: the elements of a highlighted
    /// code block around the token markup that the table holds for it, and a
    /// failure where it holds none.
    pub open spec fn highlighted(
        &self,
        code: Seq<char>,
        lang: Option<Seq<char>>,
        meta: Option<Seq<char>>,
    ) -> Result<MarkupView, RenderErrorView> {
        match self.token_markup(code, lang) {
            Some(markup) => Ok(code_block_view(markup, lang, meta)),
            None => Err(RenderErrorView::HighlighterFatal),
        }
    }

    /// A table without records.
    pub fn new() -> (table: Highlights)
        ensures
            table@ == Seq::<TokenMarkupView>::empty(),
    {
        let table = Highlights { records: Vec::new() };
        proof {
            assert(table@ =~= Seq::<TokenMarkupView>::empty());
        }
        table
    }

    /// The table of the given blocks with the markup that the engine made of
    /// each, given in the same order. Where there is markup for every block,
    /// the table covers them all; markup beyond the blocks is left out.
    pub fn from_markup(blocks: &Vec<CodeBlock>, markup: &Vec<String>) -> (table: Highlights)
        ensures
            table@.len() == if blocks.len() <= markup.len() {
                blocks.len()
            } else {
                markup.len()
            },
            forall|i: int|
                0 <= i < table@.len() ==> #[trigger] table@[i] == (TokenMarkupView {
                    code: blocks[i].code@,
                    lang: blocks[i].lang.deep_view(),
                    markup: markup[i]@,
                }),
            blocks.len() <= markup.len() ==> covers(&table, code_block_views(blocks@)),
    {
        let mut table = Highlights::new();
        let mut i: usize = 0;
        while i < blocks.len() && i < markup.len()
            invariant
                i <= blocks.len(),
                i <= markup.len(),
                table@.len() == i,
                forall|j: int|
                    0 <= j < i ==> #[trigger] table@[j] == (TokenMarkupView {
                        code: blocks[j].code@,
                        lang: blocks[j].lang.deep_view(),
                        markup: markup[j]@,
                    }),
                forall|j: int|
                    0 <= j < i ==> table.token_markup(
                        (#[trigger] blocks[j]).code@,
                        blocks[j].lang.deep_view(),
                    ) is Some,
            decreases blocks.len() - i,
        {
            let ghost before = table@;
            let block = &blocks[i];
            let ghost added = TokenMarkupView {
                code: block.code@,
                lang: block.lang.deep_view(),
                markup: markup[i as int]@,
            };
            table.record(block.code.as_str(), &block.lang, markup[i].clone());
            proof {
                assert forall|j: int| 0 <= j < i implies table.token_markup(
                    (#[trigger] blocks[j]).code@,
                    blocks[j].lang.deep_view(),
                ) is Some by {
                    lemma_tokens_after_record(
                        before,
                        added,
                        blocks[j].code@,
                        blocks[j].lang.deep_view(),
                    );
                }
            }
            i += 1;
        }
        proof {
            if blocks.len() <= markup.len() {
                let views = code_block_views(blocks@);
                assert forall|block: (Seq<char>, Option<Seq<char>>)| #[trigger]
                    views.contains(block) implies table.token_markup(block.0, block.1) is Some by {
                    let j = choose|j: int| 0 <= j < views.len() && views[j] == block;
                    assert(views[j] == blocks[j]@);
                    assert(table.token_markup(blocks[j].code@, blocks[j].lang.deep_view()) is Some);
                }
            }
        }
        table
    }

    /// Records what the engine made of a code block. A block that has tokens
    /// already keeps them.
    pub fn record(&mut self, code: &str, lang: &Option<String>, markup: String)
        ensures
            final(self)@ == old(self)@.push(
                TokenMarkupView { code: code@, lang: lang.deep_view(), markup: markup@ },
            ),
            final(self).token_markup(code@, lang.deep_view()) == match old(self).token_markup(
                code@,
                lang.deep_view(),
            ) {
                Some(kept) => Some(kept),
                None => Some(markup@),
            },
    {
        let ghost before = self@;
        let ghost added = TokenMarkupView { code: code@, lang: lang.deep_view(), markup: markup@ };
        let copy = match lang {
            Some(l) => Some(l.clone()),
            None => None,
        };
        self.records.push(TokenMarkup { code: String::from_str(code), lang: copy, markup });
        proof {
            assert(self@ =~= before.push(added));
            lemma_tokens_after_record(before, added, code@, lang.deep_view());
        }
    }

    /// The token markup that the table holds for a code block.
    pub fn tokens(&self, code: &str, lang: &Option<String>) -> (found: Option<String>)
        ensures
            found.deep_view() == self.token_markup(code@, lang.deep_view()),
    {
        let ghost all = self@;
        let mut i: usize = 0;
        proof {
            assert(all.skip(0) == all);
        }
        while i < self.records.len()
            invariant
                i <= self.records.len(),
                all == self@,
                tokens_for(all, code@, lang.deep_view()) == tokens_for(
                    all.skip(i as int),
                    code@,
                    lang.deep_view(),
                ),
            decreases self.records.len() - i,
        {
            proof {
                assert(all.skip(i as int)[0] == self.records[i as int]@);
                assert(all.skip(i as int).drop_first() == all.skip(i + 1));
            }
            let record = &self.records[i];
            if same_text(record.code.as_str(), code) && same_optional_text(&record.lang, lang) {
                return Some(record.markup.clone());
            }
            i += 1;
        }
        None
    }

    /// Renders a code block: the elements of [`code_block_view`] around the
    /// token markup that the table holds for the block. Fails where the table
    /// holds none for it.
    pub fn highlight(&self, code: &str, lang: &Option<String>, meta: &Option<String>) -> (block:
        Result<MarkupNode, RenderError>)
        ensures
            outcome_view(block) == self.highlighted(
                code@,
                lang.deep_view(),
                meta.deep_view(),
            ),
    {
        match self.tokens(code, lang) {
            Some(markup) => Ok(code_block(markup, lang, meta)),
            None => Err(RenderError::HighlighterFatal),
        }
    }
}

} // verus!
