//! The layout engine.

use vstd::prelude::*;
use vstd::string::*;
use crate::doc::{
    program_of, Document, DocumentView, Page, PageView, Style, StyleView, Text, TextCommand,
};
use crate::font::{parse, text_width, Font, FontLoadError, FontView};
use crate::laws::law_document_is_closed;
use crate::layout::{
    first_unsupported, is_unsupported, line_height, overflows, place_nodes, place_space,
    place_word, space, start, LayoutState,
};
use crate::search::first_from;
use crate::syntax::{Node, NodeView, SyntaxTree, UnsupportedNodeError};

verus! {

/// Turns a syntax tree into a document, in one pass over its nodes.
#[derive(Debug, Clone)]
pub struct Engine<'s> {
    tree: &'s SyntaxTree<'s>,
    style: Style,
    fonts: Vec<Font>,
    active_font: usize,
    text_commands: Vec<TextCommand>,
    current_line: String,
    current_width: u128,
}

/// The mathematical content of an [`Engine`].
pub struct EngineView {
    /// The nodes to lay out.
    pub nodes: Seq<NodeView>,
    /// The style to lay them out in.
    pub style: StyleView,
    /// The fonts loaded so far.
    pub fonts: Seq<FontView>,
    /// Index of the font that text is set in.
    pub active_font: int,
    /// What has been laid out so far.
    pub state: LayoutState,
}

impl EngineView {
    /// The font that text is set in.
    pub open spec fn font(self) -> FontView {
        self.fonts[self.active_font]
    }

    /// The active font index names a loaded font.
    pub open spec fn has_font(self) -> bool {
        0 <= self.active_font < self.fonts.len()
    }

    /// The engine holds no font and has laid out nothing, as when it was made.
    pub open spec fn is_fresh(self) -> bool {
        self.fonts.len() == 0 && self.state == LayoutState::initial()
    }
}

impl<'s> View for Engine<'s> {
    type V = EngineView;

    closed spec fn view(&self) -> EngineView {
        EngineView {
            nodes: self.tree@,
            style: self.style@,
            fonts: self.fonts@.map_values(|f: Font| f@),
            active_font: self.active_font as int,
            state: LayoutState {
                commands: program_of(self.text_commands@),
                line: self.current_line@,
                width: self.current_width as int,
            },
        }
    }
}

/// What a pass over the nodes returns once the font is loaded: the document,
/// or the first node that cannot be laid out.
pub open spec fn layout_outcome(engine: EngineView, font: FontView) -> Result<
    DocumentView,
    UnsupportedNodeError,
> {
    let fonts = engine.fonts.push(font);
    match first_unsupported(engine.nodes) {
        Some(i) => Err(
            UnsupportedNodeError { index: i as usize, node: engine.nodes[i].unsupported()->Some_0 },
        ),
        None => Ok(
            DocumentView {
                pages: seq![
                    PageView {
                        width: engine.style.width,
                        height: engine.style.height,
                        text: seq![
                            place_nodes(
                                engine.style,
                                fonts[0],
                                start(engine.style, 0, engine.state),
                                engine.nodes,
                            ).commands,
                        ],
                    },
                ],
                fonts,
            },
        ),
    }
}

/// What typesetting returns for a font program: an error if the style names
/// no font family or the program cannot be loaded, else what the pass returns.
pub open spec fn typeset_outcome(engine: EngineView, program: Seq<u8>) -> Result<
    DocumentView,
    TypesetErrorView,
> {
    if engine.style.font_families.len() == 0 {
        Err(TypesetErrorView::font_load(FontLoadError::NoFontFamily))
    } else {
        match parse(program) {
            Err(e) => Err(TypesetErrorView::font_load(e)),
            Ok(font) => match layout_outcome(engine, font) {
                Ok(document) => Ok(document),
                Err(e) => Err(TypesetErrorView::unsupported(e)),
            },
        }
    }
}

impl<'s> Engine<'s> {
    /// Typesets the nodes in the font whose program is given: the program of
    /// the style's first font family. The result depends on the engine and
    /// the program alone.
    pub fn typeset(self, program: Vec<u8>) -> (res: Result<Document, TypesetError>)
        ensures
            match typeset_outcome(self@, program@) {
                Ok(document) => res is Ok && res->Ok_0@ == document,
                Err(e) => res is Err && res->Err_0@ == e,
            },
            self@.is_fresh() && res is Ok ==> res->Ok_0@.is_single_page(),
    {
        if self.style.font_families.len() == 0 {
            return Err(TypesetError::font_load(FontLoadError::NoFontFamily));
        }
        match Font::load(program) {
            Ok(font) => self.typeset_with(font),
            Err(e) => Err(TypesetError::font_load(e)),
        }
    }

    /// Lays the nodes out in a font that is already loaded. The font joins
    /// the engine's fonts and the first of them becomes the active one.
    pub fn typeset_with(self, font: Font) -> (res: Result<Document, TypesetError>)
        ensures
            match layout_outcome(self@, font@) {
                Ok(document) => res is Ok && res->Ok_0@ == document,
                Err(e) => res is Err && res->Err_0@ == TypesetErrorView::unsupported(e),
            },
            self@.is_fresh() && res is Ok ==> res->Ok_0@.is_single_page(),
    {
        let mut engine = self;
        let ghost before = engine@;
        let ghost fonts = before.fonts.push(font@);
        engine.fonts.push(font);
        engine.active_font = 0;
        assert(engine@.fonts =~= fonts);

        let origin = TextCommand::Move(
            engine.style.margin_left as i64,
            engine.style.height as i64 - engine.style.margin_top as i64,
        );
        proof {
            lemma_program_push(engine.text_commands@, origin);
        }
        engine.text_commands.push(origin);
        let select = TextCommand::SetFont(0, engine.style.font_size);
        proof {
            lemma_program_push(engine.text_commands@, select);
        }
        engine.text_commands.push(select);
        assert(engine@.state == start(before.style, 0, before.state));

        let tree = engine.tree;
        let count: usize = tree.nodes.len();
        let mut i: usize = 0;
        while i < count
            invariant
                i <= count,
                count == tree.nodes@.len(),
                tree@ == before.nodes,
                before == self@,
                engine@ == (EngineView {
                    fonts,
                    active_font: 0,
                    state: place_nodes(
                        before.style,
                        fonts[0],
                        start(before.style, 0, before.state),
                        before.nodes.take(i as int),
                    ),
                    ..before
                }),
                fonts.len() > 0,
                first_unsupported(before.nodes) == first_from(
                    is_unsupported(before.nodes),
                    i as int,
                    count as int,
                ),
            decreases count - i,
        {
            let node = &tree.nodes[i];
            assert(before.nodes.take(i + 1).drop_last() =~= before.nodes.take(i as int));
            match node {
                Node::Word(word) => engine.write_word(word),
                Node::Space => engine.write_space(),
                Node::Newline => {},
                _ => {
                    let kind = node.check().unwrap();
                    let cause = UnsupportedNodeError { index: i, node: kind };
                    return Err(TypesetError::unsupported(cause));
                },
            }
            i += 1;
        }
        assert(before.nodes.take(count as int) =~= before.nodes);

        let text = Text { commands: engine.text_commands };
        let mut texts: Vec<Text> = Vec::new();
        texts.push(text);
        let page = Page { width: engine.style.width, height: engine.style.height, text: texts };
        let mut pages: Vec<Page> = Vec::new();
        pages.push(page);
        let document = Document { pages, fonts: engine.fonts };
        assert(document@.pages =~= layout_outcome(before, font@)->Ok_0.pages) by {
            assert(document@.pages[0].text =~= layout_outcome(before, font@)->Ok_0.pages[0].text);
        }
        assert(document@.fonts =~= fonts);
        proof {
            if before.is_fresh() {
                law_document_is_closed(before, font@);
            }
        }
        Ok(document)
    }

    /// Creates an engine for a syntax tree and a style, with nothing laid out yet.
    pub fn new(tree: &'s SyntaxTree<'s>, style: Style) -> (engine: Engine<'s>)
        ensures
            engine@ == (EngineView {
                nodes: tree@,
                style: style@,
                fonts: Seq::<FontView>::empty(),
                active_font: 0,
                state: LayoutState::initial(),
            }),
            engine@.is_fresh(),
    {
        let engine = Engine {
            style,
            tree,
            fonts: Vec::new(),
            active_font: 0,
            text_commands: Vec::new(),
            current_line: String::new(),
            current_width: 0,
        };
        assert(engine@.fonts =~= Seq::<FontView>::empty());
        assert(engine@.state.commands =~= Seq::empty());
        engine
    }

    /// Width of a text set in the active font, in fine units.
    fn width(&self, word: &str) -> (width: u128)
        requires
            self@.has_font(),
        ensures
            width == text_width(self@.font(), self@.style.font_size, word@),
    {
        self.fonts[self.active_font].text_width(word, self.style.font_size)
    }

    /// Whether the open line has no room for `width` more fine units.
    fn would_overflow(&self, width: u128) -> (overflow: bool)
        requires
            self@.has_font(),
        ensures
            overflow == overflows(self@.style, self@.font(), self@.state.width, width as int),
            !overflow ==> self@.state.width + width <= 0xFFFF_FFFF * 0xFFFF,
    {
        let font = &self.fonts[self.active_font];
        let content: i128 = self.style.width as i128 - self.style.margin_left as i128
            - self.style.margin_right as i128;
        let units: u16 = font.units_per_em();
        assert(-0x1_FFFF_FFFE * 0xFFFF <= content * units <= 0xFFFF_FFFF * 0xFFFF)
            by (nonlinear_arith)
            requires
                -0x1_FFFF_FFFE <= content <= 0xFFFF_FFFF,
                0 <= units <= 0xFFFF,
        ;
        let capacity: i128 = content * (units as i128);
        if capacity < 0 {
            return true;
        }
        let capacity: u128 = capacity as u128;
        if self.current_width > capacity {
            return true;
        }
        width > capacity - self.current_width
    }

    /// Height of one line in page units.
    fn line_height(&self) -> (height: i64)
        requires
            self@.has_font(),
        ensures
            height == line_height(self@.style, self@.font()),
            height > i64::MIN,
    {
        let font = &self.fonts[self.active_font];
        let units: u16 = font.units_per_em();
        let ascender: i16 = font.ascender();
        let size: u128 = self.style.font_size as u128;
        let spacing: u128 = self.style.line_spacing as u128;
        let unit: u128 = 1000 * (units as u128);
        let rise: u128 = if ascender >= 0 {
            ascender as u128
        } else {
            (-(ascender as i32)) as u128
        };
        assert(size * spacing <= 0xFFFF_FFFF * 0xFFFF) by (nonlinear_arith)
            requires
                size <= 0xFFFF_FFFF,
                spacing <= 0xFFFF,
        ;
        assert(size * spacing * rise <= 0xFFFF_FFFF * 0xFFFF * 0x8000) by (nonlinear_arith)
            requires
                size * spacing <= 0xFFFF_FFFF * 0xFFFF,
                rise <= 0x8000,
        ;
        let scaled: u128 = size * spacing * rise;
        let lines: u128 = scaled / unit;
        assert(lines <= scaled) by (nonlinear_arith)
            requires
                lines == scaled / unit,
                unit >= 1,
        ;
        assert(size * spacing * ascender == if ascender >= 0 {
            scaled as int
        } else {
            -(scaled as int)
        }) by (nonlinear_arith)
            requires
                scaled == size * spacing * rise,
                rise == if ascender >= 0 {
                    ascender as int
                } else {
                    -(ascender as int)
                },
        ;
        if ascender >= 0 {
            lines as i64
        } else {
            -(lines as i64)
        }
    }

    /// Places a word on the open line, or on a new line if the open one has no room for it.
    fn write_word(&mut self, word: &str)
        requires
            old(self)@.has_font(),
        ensures
            final(self)@ == (EngineView {
                state: place_word(old(self)@.style, old(self)@.font(), old(self)@.state, word@),
                ..old(self)@
            }),
    {
        let width: u128 = self.width(word);
        if self.would_overflow(width) {
            let height: i64 = self.line_height();
            let drop = TextCommand::Move(0, -height);
            proof {
                lemma_program_push(self.text_commands@, drop);
            }
            self.text_commands.push(drop);
            self.current_line = String::new();
            self.current_width = 0;
        }
        let text = word.to_owned();
        proof {
            lemma_program_push(self.text_commands@, TextCommand::Text(text));
        }
        self.text_commands.push(TextCommand::Text(text));
        self.current_line.append(word);
        self.current_width = self.current_width + width;
        assert(Seq::<char>::empty() + word@ =~= word@);
    }

    /// Places a space on the open line, if the line is not empty and has room for it.
    fn write_space(&mut self)
        requires
            old(self)@.has_font(),
        ensures
            final(self)@ == (EngineView {
                state: place_space(old(self)@.style, old(self)@.font(), old(self)@.state),
                ..old(self)@
            }),
    {
        proof {
            reveal_strlit(" ");
            assert(" "@ =~= space());
        }
        let space_width: u128 = self.width(" ");
        if !self.would_overflow(space_width) && !self.current_line.as_str().is_empty() {
            let text = " ".to_owned();
            proof {
                lemma_program_push(self.text_commands@, TextCommand::Text(text));
            }
            self.text_commands.push(TextCommand::Text(text));
            self.current_line.append(" ");
            self.current_width = self.current_width + space_width;
        }
    }
}

/// What stopped a pass.
#[derive(Debug, Clone, Copy, PartialEq, Eq, Structural)]
pub enum TypesetErrorKind {
    /// The font could not be loaded.
    FontLoad(FontLoadError),
    /// A node cannot be laid out.
    UnsupportedNode(UnsupportedNodeError),
    /// Anything else; the message says what.
    Other,
}

/// The error that typesetting fails with.
#[derive(Debug, Clone, PartialEq, Eq)]
pub struct TypesetError {
    kind: TypesetErrorKind,
    message: String,
}

/// The mathematical content of a [`TypesetError`].
pub struct TypesetErrorView {
    pub kind: TypesetErrorKind,
    pub message: Seq<char>,
}

impl TypesetErrorView {
    /// The error that a font which cannot be loaded gives.
    pub open spec fn font_load(e: FontLoadError) -> TypesetErrorView {
        TypesetErrorView { kind: TypesetErrorKind::FontLoad(e), message: e.message_of() }
    }

    /// The error that a node which cannot be laid out gives.
    pub open spec fn unsupported(e: UnsupportedNodeError) -> TypesetErrorView {
        TypesetErrorView {
            kind: TypesetErrorKind::UnsupportedNode(e),
            message: e.node.message_of(),
        }
    }
}

impl View for TypesetError {
    type V = TypesetErrorView;

    closed spec fn view(&self) -> TypesetErrorView {
        TypesetErrorView { kind: self.kind, message: self.message@ }
    }
}

impl TypesetError {
    /// An error of no particular kind, with a message.
    pub fn new(message: String) -> (e: TypesetError)
        ensures
            e@ == (TypesetErrorView { kind: TypesetErrorKind::Other, message: message@ }),
    {
        TypesetError { kind: TypesetErrorKind::Other, message }
    }

    /// The error for a font that cannot be loaded.
    pub fn font_load(e: FontLoadError) -> (error: TypesetError)
        ensures
            error@ == TypesetErrorView::font_load(e),
    {
        TypesetError { kind: TypesetErrorKind::FontLoad(e), message: e.message() }
    }

    /// The error for a node that cannot be laid out.
    pub fn unsupported(e: UnsupportedNodeError) -> (error: TypesetError)
        ensures
            error@ == TypesetErrorView::unsupported(e),
    {
        TypesetError { kind: TypesetErrorKind::UnsupportedNode(e), message: e.node.message() }
    }

    /// What stopped the pass.
    pub fn kind(&self) -> (kind: TypesetErrorKind)
        ensures
            kind == self@.kind,
    {
        self.kind
    }

    /// The error in words.
    pub fn message(&self) -> (message: &str)
        ensures
            message@ == self@.message,
    {
        self.message.as_str()
    }
}

/// Appending a command appends what it stands for.
proof fn lemma_program_push(commands: Seq<TextCommand>, command: TextCommand)
    ensures
        program_of(commands.push(command)) == program_of(commands).push(command@),
{
    assert(program_of(commands.push(command)) =~= program_of(commands).push(command@));
}

} // verus!
