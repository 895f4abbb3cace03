//! Renders a Markdown/MDX document tree into a markup tree.
//!
//! The input is a [`Node`] tree, the output a [`MarkupNode`] tree that can be
//! written out as text with [`MarkupNode::render_to_string`]. The token markup
//! of code blocks comes in a [`Highlights`] table that the caller fills from
//! the tokenizing engine; a [`Highlighter`] carries the stylesheet that colours
//! the emitted class names.

pub mod component;
pub mod error;
pub mod guarantees;
pub mod helper;
pub mod highlight;
pub mod markup;
pub mod node;
pub mod render;
pub mod text;

pub use component::Markdown;
pub use component::SyntaxHighlightingStyle;
pub use error::RenderError;
pub use helper::clean_leptos_markup;
pub use helper::CleanupError;
pub use helper::TestCase;
pub use highlight::code_blocks;
pub use highlight::lines_to_feed;
pub use highlight::CodeBlock;
pub use highlight::Highlighter;
pub use highlight::Highlights;
pub use highlight::TokenMarkup;
pub use markup::MarkupAttribute;
pub use markup::MarkupNode;
pub use node::Attribute;
pub use node::AttributeValue;
pub use node::Node;
pub use render::create_element;
pub use render::get_class_from_attributes;
pub use render::render_node;
pub use render::CodeMode;
pub use render::RenderOptions;
