//! A layout engine that turns parsed content into a paint program.
//!
//! The engine walks a sequence of [`Node`]s once, measures each word by the
//! advance widths of a [`Font`], breaks the line before a word that no longer
//! fits, and emits [`TextCommand`]s that a renderer can draw as they come.
//! The result is a [`Document`] of one page.
//!
//! ```text
//! let tree = SyntaxTree { nodes: vec![Node::Word("hello"), Node::Space, Node::Word("world")] };
//! let document = Engine::new(&tree, style).typeset(font_program)?;
//! ```
//!
//! # Numbers
//!
//! All arithmetic is exact integer arithmetic. Lengths of the page are whole
//! numbers of a page unit of the caller's choice. Widths of text are kept in
//! *fine units*, of which a page unit holds as many as the font has design
//! units per em, so that a glyph's width is never rounded. The one rounded
//! number is the height of a line, which is rounded towards zero.
//!
//! # What is proved
//!
//! [`Engine::typeset`] returns exactly what [`engine::typeset_outcome`] says,
//! a function of the style, the nodes and the bytes of the font program.
//! [`layout`] defines the pass node by node, [`sfnt`] defines what a font
//! program holds, and [`laws`] proves what follows for every input: no line
//! is broken too early, a word that overflows is preceded by one break, a
//! word wider than the line is still placed, leading spaces are dropped and
//! line feeds change nothing.

pub mod doc;
pub mod engine;
pub mod font;
pub mod func;
pub mod laws;
pub mod layout;
pub mod library;
pub mod parsing;
pub mod search;
pub mod sfnt;
pub mod syntax;

pub use doc::{
    Command, Document, DocumentView, Page, PageView, Style, StyleView, Text, TextCommand,
};
pub use engine::{Engine, EngineView, TypesetError, TypesetErrorKind, TypesetErrorView};
pub use font::{Font, FontLoadError, FontView};
pub use func::{Function, Scope};
pub use layout::LayoutState;
pub use parsing::{ParseError, ParseResult};
pub use sfnt::TableTag;
pub use syntax::{
    FuncCall, FuncCallView, Node, NodeView, SyntaxTree, UnsupportedNode, UnsupportedNodeError,
};
