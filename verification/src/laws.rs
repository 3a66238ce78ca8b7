//! What holds of every layout pass.
//!
//! Each law speaks of the state `place_nodes(style, font, before, nodes)`
//! that a pass reaches from a state `before`. The pass of an engine starts
//! from the state that `start` gives, and `nodes.take(i)` is what the engine
//! has seen when it comes to node `i`.

use vstd::prelude::*;
use crate::doc::{selects_within, Command, DocumentView, StyleView};
use crate::engine::{layout_outcome, typeset_outcome, EngineView};
use crate::font::{parse, tables_error, text_width, FontView};
use crate::layout::{
    first_unsupported, is_unsupported, line_break, line_capacity, overflows, place_node,
    place_nodes, place_space, space, start, LayoutState,
};
use crate::search::lemma_first_from_is_first;
use crate::syntax::NodeView;

verus! {

/// Width that a node adds to a line when it is placed without a break, in fine units.
pub open spec fn node_width(style: StyleView, font: FontView, node: NodeView) -> int {
    match node {
        NodeView::Word(word) => text_width(font, style.font_size, word),
        NodeView::Space => text_width(font, style.font_size, space()),
        _ => 0,
    }
}

/// Sum of the widths of a sequence of nodes, in fine units.
pub open spec fn nodes_width(style: StyleView, font: FontView, nodes: Seq<NodeView>) -> int
    decreases nodes.len(),
{
    if nodes.len() == 0 {
        0
    } else {
        nodes_width(style, font, nodes.drop_last()) + node_width(style, font, nodes.last())
    }
}

/// Whether `after` holds the commands of `before` and then only text.
pub open spec fn adds_only_text(before: Seq<Command>, after: Seq<Command>) -> bool {
    &&& before.is_prefix_of(after)
    &&& forall|k: int| before.len() <= k < after.len() ==> #[trigger] after[k] is Text
}

/// No text has a negative width.
pub proof fn lemma_text_width_nonnegative(font: FontView, font_size: int, text: Seq<char>)
    requires
        font_size >= 0,
    ensures
        text_width(font, font_size, text) >= 0,
    decreases text.len(),
{
    if text.len() > 0 {
        lemma_text_width_nonnegative(font, font_size, text.drop_last());
        assert(font.advance(text.last()) * font_size >= 0) by (nonlinear_arith)
            requires
                font.advance(text.last()) >= 0,
                font_size >= 0,
        ;
    }
}

/// The width of two texts in a row is the sum of their widths.
pub proof fn lemma_text_width_concat(font: FontView, font_size: int, a: Seq<char>, b: Seq<char>)
    ensures
        text_width(font, font_size, a + b) == text_width(font, font_size, a) + text_width(
            font,
            font_size,
            b,
        ),
    decreases b.len(),
{
    if b.len() == 0 {
        assert(a + b =~= a);
    } else {
        lemma_text_width_concat(font, font_size, a, b.drop_last());
        assert((a + b).drop_last() =~= a + b.drop_last());
    }
}

/// Node `i` is laid out from the state that the nodes before it have led to.
pub proof fn lemma_place_nodes_step(
    style: StyleView,
    font: FontView,
    before: LayoutState,
    nodes: Seq<NodeView>,
    i: int,
)
    requires
        0 <= i < nodes.len(),
    ensures
        place_nodes(style, font, before, nodes.take(i + 1)) == place_node(
            style,
            font,
            place_nodes(style, font, before, nodes.take(i)),
            nodes[i],
        ),
{
    assert(nodes.take(i + 1).drop_last() =~= nodes.take(i));
}

/// Laying out two sequences in a row is laying out the second from where the first ends.
pub proof fn lemma_place_nodes_concat(
    style: StyleView,
    font: FontView,
    before: LayoutState,
    a: Seq<NodeView>,
    b: Seq<NodeView>,
)
    ensures
        place_nodes(style, font, before, a + b) == place_nodes(
            style,
            font,
            place_nodes(style, font, before, a),
            b,
        ),
    decreases b.len(),
{
    if b.len() == 0 {
        assert(a + b =~= a);
    } else {
        lemma_place_nodes_concat(style, font, before, a, b.drop_last());
        assert((a + b).drop_last() =~= a + b.drop_last());
    }
}

/// A pass only appends: the commands present before it stay in place, and
/// each command it adds is a text or the line break.
pub proof fn law_commands_only_grow(
    style: StyleView,
    font: FontView,
    before: LayoutState,
    nodes: Seq<NodeView>,
)
    ensures
        ({
            let after = place_nodes(style, font, before, nodes);
            &&& before.commands.is_prefix_of(after.commands)
            &&& forall|k: int|
                before.commands.len() <= k < after.commands.len() ==> (
                #[trigger] after.commands[k]) is Text || after.commands[k] == line_break(
                    style,
                    font,
                )
        }),
    decreases nodes.len(),
{
    if nodes.len() > 0 {
        law_commands_only_grow(style, font, before, nodes.drop_last());
    }
}

/// What the engine has emitted when it comes to node `n` is the beginning of
/// what it has emitted at the end.
pub proof fn law_earlier_commands_stay(
    style: StyleView,
    font: FontView,
    before: LayoutState,
    nodes: Seq<NodeView>,
    n: int,
)
    requires
        0 <= n <= nodes.len(),
    ensures
        place_nodes(style, font, before, nodes.take(n)).commands.is_prefix_of(
            place_nodes(style, font, before, nodes).commands,
        ),
{
    let rest = nodes.skip(n);
    assert(nodes.take(n) + rest =~= nodes);
    lemma_place_nodes_concat(style, font, before, nodes.take(n), rest);
    law_commands_only_grow(style, font, place_nodes(style, font, before, nodes.take(n)), rest);
}

/// No premature break: while the widths of the nodes seen so far, added to
/// the width the line had before them, do not exceed the room of a line, the
/// pass has emitted text only, and no line break.
pub proof fn law_no_premature_break(
    style: StyleView,
    font: FontView,
    before: LayoutState,
    nodes: Seq<NodeView>,
    n: int,
)
    requires
        style.wf(),
        0 <= n <= nodes.len(),
        before.width + nodes_width(style, font, nodes.take(n)) <= line_capacity(style, font),
    ensures
        adds_only_text(
            before.commands,
            place_nodes(style, font, before, nodes.take(n)).commands,
        ),
        place_nodes(style, font, before, nodes.take(n)).commands.is_prefix_of(
            place_nodes(style, font, before, nodes).commands,
        ),
{
    lemma_fitting_nodes(style, font, before, nodes.take(n));
    law_earlier_commands_stay(style, font, before, nodes, n);
}

/// Nodes that fit on the open line are placed on it without a break.
proof fn lemma_fitting_nodes(
    style: StyleView,
    font: FontView,
    before: LayoutState,
    nodes: Seq<NodeView>,
)
    requires
        style.wf(),
        before.width + nodes_width(style, font, nodes) <= line_capacity(style, font),
    ensures
        adds_only_text(before.commands, place_nodes(style, font, before, nodes).commands),
        place_nodes(style, font, before, nodes).width <= before.width + nodes_width(
            style,
            font,
            nodes,
        ),
    decreases nodes.len(),
{
    if nodes.len() > 0 {
        let size = style.font_size;
        match nodes.last() {
            NodeView::Word(word) => lemma_text_width_nonnegative(font, size, word),
            _ => lemma_text_width_nonnegative(font, size, space()),
        }
        lemma_fitting_nodes(style, font, before, nodes.drop_last());
    }
}

/// Break on overflow: a word that the open line has no room for is preceded
/// by exactly one line break, it opens the next line, and the width of that
/// line is then the word's own.
pub proof fn law_break_on_overflow(
    style: StyleView,
    font: FontView,
    before: LayoutState,
    nodes: Seq<NodeView>,
    i: int,
)
    requires
        0 <= i < nodes.len(),
        nodes[i] is Word,
        overflows(
            style,
            font,
            place_nodes(style, font, before, nodes.take(i)).width,
            node_width(style, font, nodes[i]),
        ),
    ensures
        ({
            let reached = place_nodes(style, font, before, nodes.take(i));
            let next = place_nodes(style, font, before, nodes.take(i + 1));
            &&& next.commands == reached.commands.push(line_break(style, font)).push(
                Command::Text(nodes[i]->Word_0),
            )
            &&& next.line == nodes[i]->Word_0
            &&& next.width == node_width(style, font, nodes[i])
        }),
{
    lemma_place_nodes_step(style, font, before, nodes, i);
}

/// A word that the open line has room for is placed on it, and nothing else is emitted.
pub proof fn law_fitting_word_stays(
    style: StyleView,
    font: FontView,
    before: LayoutState,
    nodes: Seq<NodeView>,
    i: int,
)
    requires
        0 <= i < nodes.len(),
        nodes[i] is Word,
        !overflows(
            style,
            font,
            place_nodes(style, font, before, nodes.take(i)).width,
            node_width(style, font, nodes[i]),
        ),
    ensures
        ({
            let reached = place_nodes(style, font, before, nodes.take(i));
            let next = place_nodes(style, font, before, nodes.take(i + 1));
            &&& next.commands == reached.commands.push(Command::Text(nodes[i]->Word_0))
            &&& next.line == reached.line + nodes[i]->Word_0
            &&& next.width == reached.width + node_width(style, font, nodes[i])
        }),
{
    lemma_place_nodes_step(style, font, before, nodes, i);
}

/// The width of the open line never becomes negative.
pub proof fn lemma_width_nonnegative(
    style: StyleView,
    font: FontView,
    before: LayoutState,
    nodes: Seq<NodeView>,
)
    requires
        style.wf(),
        before.width >= 0,
    ensures
        place_nodes(style, font, before, nodes).width >= 0,
    decreases nodes.len(),
{
    if nodes.len() > 0 {
        let size = style.font_size;
        match nodes.last() {
            NodeView::Word(word) => lemma_text_width_nonnegative(font, size, word),
            _ => lemma_text_width_nonnegative(font, size, space()),
        }
        lemma_width_nonnegative(style, font, before, nodes.drop_last());
    }
}

/// An oversized word is placed, not dropped: a word wider than a whole line
/// is preceded by the one line break that any overflowing word gets and is
/// then emitted as it is; nothing else is emitted for it.
pub proof fn law_oversized_word_is_placed(
    style: StyleView,
    font: FontView,
    before: LayoutState,
    nodes: Seq<NodeView>,
    i: int,
)
    requires
        style.wf(),
        0 <= i < nodes.len(),
        before.width >= 0,
        nodes[i] is Word,
        node_width(style, font, nodes[i]) > line_capacity(style, font),
    ensures
        ({
            let reached = place_nodes(style, font, before, nodes.take(i));
            let next = place_nodes(style, font, before, nodes.take(i + 1));
            &&& next.commands == reached.commands.push(line_break(style, font)).push(
                Command::Text(nodes[i]->Word_0),
            )
            &&& next.line == nodes[i]->Word_0
            &&& next.width == node_width(style, font, nodes[i])
        }),
{
    lemma_width_nonnegative(style, font, before, nodes.take(i));
    law_break_on_overflow(style, font, before, nodes, i);
}

/// Leading spaces are dropped: a space that comes while the open line is
/// empty, at the start of the pass or after a line break, changes nothing.
pub proof fn law_leading_space_is_dropped(
    style: StyleView,
    font: FontView,
    before: LayoutState,
    nodes: Seq<NodeView>,
    i: int,
)
    requires
        0 <= i < nodes.len(),
        nodes[i] is Space,
        place_nodes(style, font, before, nodes.take(i)).line.len() == 0,
    ensures
        place_nodes(style, font, before, nodes.take(i + 1)) == place_nodes(
            style,
            font,
            before,
            nodes.take(i),
        ),
{
    lemma_place_nodes_step(style, font, before, nodes, i);
}

/// A space never breaks a line: it adds one text command or nothing.
pub proof fn law_space_never_breaks(style: StyleView, font: FontView, before: LayoutState)
    ensures
        ({
            let after = place_space(style, font, before);
            after == before || (after.commands == before.commands.push(Command::Text(space()))
                && after.width <= line_capacity(style, font))
        }),
{
}

/// A line feed changes nothing: the state after it is the state before it,
/// and the pass ends as it would without that node.
pub proof fn law_newline_changes_nothing(
    style: StyleView,
    font: FontView,
    before: LayoutState,
    nodes: Seq<NodeView>,
    i: int,
)
    requires
        0 <= i < nodes.len(),
        nodes[i] is Newline,
    ensures
        place_nodes(style, font, before, nodes.take(i + 1)) == place_nodes(
            style,
            font,
            before,
            nodes.take(i),
        ),
        place_nodes(style, font, before, nodes) == place_nodes(
            style,
            font,
            before,
            nodes.remove(i),
        ),
{
    lemma_place_nodes_step(style, font, before, nodes, i);
    let head = nodes.take(i);
    let tail = nodes.skip(i + 1);
    assert(nodes.take(i + 1) + tail =~= nodes);
    assert(head + tail =~= nodes.remove(i));
    lemma_place_nodes_concat(style, font, before, nodes.take(i + 1), tail);
    lemma_place_nodes_concat(style, font, before, head, tail);
}

/// The width of the open line is the width of the text on it.
pub proof fn law_width_is_width_of_line(
    style: StyleView,
    font: FontView,
    before: LayoutState,
    nodes: Seq<NodeView>,
)
    requires
        before.width == text_width(font, style.font_size, before.line),
    ensures
        ({
            let after = place_nodes(style, font, before, nodes);
            after.width == text_width(font, style.font_size, after.line)
        }),
    decreases nodes.len(),
{
    if nodes.len() > 0 {
        law_width_is_width_of_line(style, font, before, nodes.drop_last());
        let reached = place_nodes(style, font, before, nodes.drop_last());
        let size = style.font_size;
        match nodes.last() {
            NodeView::Word(word) => lemma_text_width_concat(font, size, reached.line, word),
            _ => lemma_text_width_concat(font, size, reached.line, space()),
        }
    }
}

/// A line is wider than the room it has only while a single word that is
/// itself too wide is all that stands on it.
pub proof fn law_only_a_single_word_overhangs(
    style: StyleView,
    font: FontView,
    before: LayoutState,
    nodes: Seq<NodeView>,
)
    requires
        before.width <= line_capacity(style, font),
    ensures
        ({
            let after = place_nodes(style, font, before, nodes);
            after.width <= line_capacity(style, font) || exists|i: int|
                0 <= i < nodes.len() && (#[trigger] nodes[i]) is Word && after.line
                    == nodes[i]->Word_0 && after.width == node_width(style, font, nodes[i])
        }),
    decreases nodes.len(),
{
    if nodes.len() > 0 {
        let prefix = nodes.drop_last();
        law_only_a_single_word_overhangs(style, font, before, prefix);
        let reached = place_nodes(style, font, before, prefix);
        let after = place_nodes(style, font, before, nodes);
        let last = nodes.len() - 1;
        if after.width > line_capacity(style, font) {
            match nodes.last() {
                NodeView::Word(word) => {
                    assert(nodes[last] is Word);
                },
                _ => {
                    assert(after == reached);
                    let i = choose|i: int|
                        0 <= i < prefix.len() && (#[trigger] prefix[i]) is Word && reached.line
                            == prefix[i]->Word_0 && reached.width == node_width(
                            style,
                            font,
                            prefix[i],
                        );
                    assert(nodes[i] == prefix[i]);
                },
            }
        }
    }
}

/// A node that cannot be laid out fails the pass: no document is returned,
/// and the error names the first such node.
pub proof fn law_unsupported_node_fails(engine: EngineView, font: FontView, i: int)
    requires
        0 <= i < engine.nodes.len() <= usize::MAX,
        engine.nodes[i].unsupported() is Some,
    ensures
        layout_outcome(engine, font) is Err,
        ({
            let error = layout_outcome(engine, font)->Err_0;
            &&& error.index <= i
            &&& engine.nodes[error.index as int].unsupported() == Some(error.node)
            &&& forall|j: int|
                0 <= j < error.index ==> (#[trigger] engine.nodes[j]).unsupported() is None
        }),
{
    let holds = is_unsupported(engine.nodes);
    lemma_first_from_is_first(holds, 0, engine.nodes.len() as int);
    assert(holds(i));
    let first = first_unsupported(engine.nodes)->Some_0;
    assert forall|j: int| 0 <= j < first implies (#[trigger] engine.nodes[j]).unsupported()
        is None by {
        assert(!holds(j));
    }
}

/// Where every node can be laid out, the pass returns a document.
pub proof fn law_supported_nodes_succeed(engine: EngineView, font: FontView)
    requires
        forall|i: int| 0 <= i < engine.nodes.len() ==> (#[trigger] engine.nodes[i]).unsupported()
            is None,
    ensures
        layout_outcome(engine, font) is Ok,
{
    let holds = is_unsupported(engine.nodes);
    lemma_first_from_is_first(holds, 0, engine.nodes.len() as int);
    if first_unsupported(engine.nodes) is Some {
        let first = first_unsupported(engine.nodes)->Some_0;
        assert(holds(first));
        assert(engine.nodes[first].unsupported() is None);
    }
}

/// Determinism: what typesetting returns depends on the style, the nodes,
/// the font program and what the engine held before, and on nothing else.
pub proof fn law_typeset_is_deterministic(a: EngineView, b: EngineView, program: Seq<u8>)
    requires
        a.style == b.style,
        a.nodes == b.nodes,
        a.fonts == b.fonts,
        a.state == b.state,
    ensures
        typeset_outcome(a, program) == typeset_outcome(b, program),
{
}

/// A font program that loads gives a well-formed font, and so do tables that are accepted.
pub proof fn law_loaded_font_is_well_formed(program: Seq<u8>)
    requires
        parse(program) is Ok,
    ensures
        parse(program)->Ok_0.wf(),
        parse(program)->Ok_0.program == program,
{
    let font = parse(program)->Ok_0;
    assert(tables_error(font.units_per_em, font.widths, font.glyphs) is None);
    assert forall|i: int| 0 <= i < font.glyphs.len() implies (#[trigger] font.glyphs[i])
        < font.widths.len() by {
        if font.glyphs[i] >= font.widths.len() {
            assert(tables_error(font.units_per_em, font.widths, font.glyphs) is Some);
        }
    }
}

/// The document that a fresh engine produces has one page and one font, the
/// one that was loaded, and each of its `SetFont` commands selects that font.
/// Its commands are those of a pass in that font that starts from the
/// initial state: the laws of this file hold of them with `before` taken to
/// be `start(style, 0, LayoutState::initial())`.
pub proof fn law_document_is_closed(engine: EngineView, font: FontView)
    requires
        engine.is_fresh(),
        layout_outcome(engine, font) is Ok,
    ensures
        layout_outcome(engine, font)->Ok_0.is_single_page(),
        layout_outcome(engine, font)->Ok_0.fonts == seq![font],
        layout_outcome(engine, font)->Ok_0.pages[0].text[0] == place_nodes(
            engine.style,
            font,
            start(engine.style, 0, LayoutState::initial()),
            engine.nodes,
        ).commands,
{
    let begun = start(engine.style, 0, engine.state);
    let active = engine.fonts.push(font)[0];
    let commands = place_nodes(engine.style, active, begun, engine.nodes).commands;
    law_commands_only_grow(engine.style, active, begun, engine.nodes);
    assert(engine.fonts.push(font) =~= seq![font]);
    let document: DocumentView = layout_outcome(engine, font)->Ok_0;
    assert(document.pages[0].text[0] == commands);
    assert(begun.commands.len() == 2);
    assert forall|c: int| 0 <= c < commands.len() implies match #[trigger] commands[c] {
        Command::SetFont(index, _) => 0 <= index < document.fonts.len(),
        _ => true,
    } by {
        if c < 2 {
            assert(commands[c] == begun.commands[c]);
        }
    }
    assert(selects_within(commands, document.fonts.len() as int));
}

} // verus!
