//! The layout pass as mathematics: what the engine computes, node by node.
//!
//! Widths of text are whole numbers of *fine units*: one page unit holds as
//! many fine units as the font has design units per em. A glyph that is `a`
//! design units wide, set at a font size of `s` page units, is exactly
//! `a * s` fine units wide, so no width is ever rounded.

use vstd::prelude::*;
use crate::doc::{Command, StyleView};
use crate::font::{text_width, FontView};
use crate::search::first_from;
use crate::syntax::NodeView;

verus! {

/// What a pass has produced so far.
pub struct LayoutState {
    /// Commands emitted so far.
    pub commands: Seq<Command>,
    /// Text placed on the line that is still open.
    pub line: Seq<char>,
    /// Width of that text, in fine units.
    pub width: int,
}

impl LayoutState {
    /// Nothing emitted and nothing on the line.
    pub open spec fn initial() -> LayoutState {
        LayoutState { commands: Seq::empty(), line: Seq::empty(), width: 0 }
    }
}

/// Room for one line, in fine units.
pub open spec fn line_capacity(style: StyleView, font: FontView) -> int {
    style.content_width() * font.units_per_em
}

/// Whether a line of width `current` has no room left for `width` more.
/// A line that is filled exactly does not overflow.
pub open spec fn overflows(style: StyleView, font: FontView, current: int, width: int) -> bool {
    current + width > line_capacity(style, font)
}

/// Height of one line in page units: font size times line spacing times the
/// ascender, rounded towards zero.
pub open spec fn line_height(style: StyleView, font: FontView) -> int {
    let scaled = style.font_size * style.line_spacing * font.ascender;
    let unit = 1000 * font.units_per_em;
    if scaled >= 0 {
        scaled / unit
    } else {
        -((-scaled) / unit)
    }
}

/// The command that ends a line: the cursor drops by one line height.
pub open spec fn line_break(style: StyleView, font: FontView) -> Command {
    Command::Move(0, -line_height(style, font))
}

/// The text of a space node.
pub open spec fn space() -> Seq<char> {
    seq![' ']
}

/// The state before the first node: the cursor is put at the top left corner
/// of the text area and the font is selected.
pub open spec fn start(style: StyleView, active_font: int, before: LayoutState) -> LayoutState {
    LayoutState {
        commands: before.commands.push(
            Command::Move(style.margin_left, style.height - style.margin_top),
        ).push(Command::SetFont(active_font, style.font_size)),
        ..before
    }
}

/// Places a word. If the line has no room for it, the line is broken first
/// and the word opens the next one; the word is placed in either case.
pub open spec fn place_word(
    style: StyleView,
    font: FontView,
    s: LayoutState,
    word: Seq<char>,
) -> LayoutState {
    let width = text_width(font, style.font_size, word);
    if overflows(style, font, s.width, width) {
        LayoutState {
            commands: s.commands.push(line_break(style, font)).push(Command::Text(word)),
            line: word,
            width,
        }
    } else {
        LayoutState {
            commands: s.commands.push(Command::Text(word)),
            line: s.line + word,
            width: s.width + width,
        }
    }
}

/// Places a space, unless the line is still empty or has no room for it.
/// A space never breaks a line.
pub open spec fn place_space(style: StyleView, font: FontView, s: LayoutState) -> LayoutState {
    let width = text_width(font, style.font_size, space());
    if !overflows(style, font, s.width, width) && s.line.len() > 0 {
        LayoutState {
            commands: s.commands.push(Command::Text(space())),
            line: s.line + space(),
            width: s.width + width,
        }
    } else {
        s
    }
}

/// Lays out one node. A line feed in the source changes nothing, and
/// neither does a node that the engine does not lay out.
pub open spec fn place_node(
    style: StyleView,
    font: FontView,
    s: LayoutState,
    node: NodeView,
) -> LayoutState {
    match node {
        NodeView::Word(word) => place_word(style, font, s, word),
        NodeView::Space => place_space(style, font, s),
        _ => s,
    }
}

/// Lays out a sequence of nodes in order.
pub open spec fn place_nodes(
    style: StyleView,
    font: FontView,
    s: LayoutState,
    nodes: Seq<NodeView>,
) -> LayoutState
    decreases nodes.len(),
{
    if nodes.len() == 0 {
        s
    } else {
        place_node(style, font, place_nodes(style, font, s, nodes.drop_last()), nodes.last())
    }
}

/// Whether the node at a position is one that the engine does not lay out.
pub open spec fn is_unsupported(nodes: Seq<NodeView>) -> spec_fn(int) -> bool {
    |i: int| nodes[i].unsupported() is Some
}

/// Position of the first node that the engine does not lay out, if there is one.
pub open spec fn first_unsupported(nodes: Seq<NodeView>) -> Option<int> {
    first_from(is_unsupported(nodes), 0, nodes.len() as int)
}

} // verus!
