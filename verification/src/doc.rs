//! Page style, and the document that layout produces.
//!
//! Every length is a whole number of one page unit, whatever the caller
//! chooses it to be; the engine never rounds a length it was given.

use vstd::prelude::*;
use vstd::string::*;
use crate::font::{Font, FontView};

verus! {

/// Page geometry and typography of a document.
#[derive(Debug, Clone, PartialEq, Eq)]
pub struct Style {
    /// Page width.
    pub width: u32,
    /// Page height.
    pub height: u32,
    /// Distance of the text from the left edge.
    pub margin_left: u32,
    /// Distance of the text from the right edge.
    pub margin_right: u32,
    /// Distance of the first line from the top edge.
    pub margin_top: u32,
    /// Font families in order of preference; the first one is used.
    pub font_families: Vec<String>,
    /// Size of one em.
    pub font_size: u32,
    /// Line advance as a multiple of the ascender, in thousandths.
    pub line_spacing: u16,
}

/// The mathematical content of a [`Style`].
pub struct StyleView {
    pub width: int,
    pub height: int,
    pub margin_left: int,
    pub margin_right: int,
    pub margin_top: int,
    pub font_families: Seq<Seq<char>>,
    pub font_size: int,
    pub line_spacing: int,
}

impl StyleView {
    /// Every number is one that a [`Style`] can hold.
    pub open spec fn wf(self) -> bool {
        &&& 0 <= self.width <= u32::MAX
        &&& 0 <= self.height <= u32::MAX
        &&& 0 <= self.margin_left <= u32::MAX
        &&& 0 <= self.margin_right <= u32::MAX
        &&& 0 <= self.margin_top <= u32::MAX
        &&& 0 <= self.font_size <= u32::MAX
        &&& 0 <= self.line_spacing <= u16::MAX
    }

    /// Horizontal room for a line: the page width less both side margins.
    /// Negative when the margins overlap.
    pub open spec fn content_width(self) -> int {
        self.width - self.margin_left - self.margin_right
    }
}

impl View for Style {
    type V = StyleView;

    open spec fn view(&self) -> StyleView {
        StyleView {
            width: self.width as int,
            height: self.height as int,
            margin_left: self.margin_left as int,
            margin_right: self.margin_right as int,
            margin_top: self.margin_top as int,
            font_families: self.font_families@.map_values(|family: String| family@),
            font_size: self.font_size as int,
            line_spacing: self.line_spacing as int,
        }
    }
}

impl Style {
    /// Where the font program of a family is kept.
    pub open spec fn path_of(family: Seq<char>) -> Seq<char> {
        "../fonts/"@ + family + "-Regular.ttf"@
    }

    /// Path of the font program to load: that of the first family, if there is one.
    pub fn font_path(&self) -> (path: Option<String>)
        ensures
            self@.font_families.len() == 0 ==> path is None,
            self@.font_families.len() > 0 ==> path is Some && path->Some_0@ == Self::path_of(
                self@.font_families[0],
            ),
    {
        if self.font_families.len() == 0 {
            return None;
        }
        let mut path = String::from_str("../fonts/");
        path.append(self.font_families[0].as_str());
        path.append("-Regular.ttf");
        Some(path)
    }
}

/// One instruction of a paint program.
#[derive(Debug, Clone, PartialEq, Eq)]
pub enum TextCommand {
    /// Moves the cursor by an offset to the right and an offset upwards.
    Move(i64, i64),
    /// Selects a font of the document by index, at a size.
    SetFont(usize, u32),
    /// Paints text at the cursor.
    Text(String),
}

/// The mathematical content of a [`TextCommand`].
pub enum Command {
    Move(int, int),
    SetFont(int, int),
    Text(Seq<char>),
}

impl View for TextCommand {
    type V = Command;

    open spec fn view(&self) -> Command {
        match self {
            TextCommand::Move(dx, dy) => Command::Move(*dx as int, *dy as int),
            TextCommand::SetFont(index, size) => Command::SetFont(*index as int, *size as int),
            TextCommand::Text(text) => Command::Text(text@),
        }
    }
}

/// The paint program that a sequence of commands stands for.
pub open spec fn program_of(commands: Seq<TextCommand>) -> Seq<Command> {
    commands.map_values(|c: TextCommand| c@)
}

/// Whether every `SetFont` command of a paint program selects one of the
/// first `fonts` fonts.
pub open spec fn selects_within(commands: Seq<Command>, fonts: int) -> bool {
    forall|c: int|
        0 <= c < commands.len() ==> match #[trigger] commands[c] {
            Command::SetFont(index, _) => 0 <= index < fonts,
            _ => true,
        }
}

/// One contiguous stream of commands.
#[derive(Debug, Clone, PartialEq, Eq)]
pub struct Text {
    pub commands: Vec<TextCommand>,
}

impl Text {
    /// Whether every `SetFont` command selects one of the first `fonts` fonts.
    pub fn selects_within(&self, fonts: usize) -> (ok: bool)
        ensures
            ok == selects_within(self@, fonts as int),
    {
        let mut c: usize = 0;
        while c < self.commands.len()
            invariant
                c <= self.commands.len(),
                selects_within(self@.take(c as int), fonts as int),
            decreases self.commands.len() - c,
        {
            match &self.commands[c] {
                TextCommand::SetFont(index, _) => {
                    if *index >= fonts {
                        assert(self@[c as int] is SetFont);
                        return false;
                    }
                },
                _ => {},
            }
            assert forall|k: int| 0 <= k < c + 1 implies match #[trigger] self@.take(c + 1)[k] {
                Command::SetFont(index, _) => 0 <= index < fonts,
                _ => true,
            } by {
                if k < c {
                    assert(self@.take(c as int)[k] == self@.take(c + 1)[k]);
                }
            }
            c += 1;
        }
        assert(self@.take(c as int) =~= self@);
        true
    }
}

impl View for Text {
    type V = Seq<Command>;

    open spec fn view(&self) -> Seq<Command> {
        program_of(self.commands@)
    }
}

/// A page and the text on it.
#[derive(Debug, Clone, PartialEq, Eq)]
pub struct Page {
    pub width: u32,
    pub height: u32,
    pub text: Vec<Text>,
}

impl Page {
    /// Whether every `SetFont` command on the page selects one of the first `fonts` fonts.
    pub fn selects_within(&self, fonts: usize) -> (ok: bool)
        ensures
            ok == self@.selects_within(fonts as int),
    {
        let mut t: usize = 0;
        while t < self.text.len()
            invariant
                t <= self.text.len(),
                forall|k: int|
                    0 <= k < t ==> selects_within(#[trigger] self@.text[k], fonts as int),
            decreases self.text.len() - t,
        {
            if !self.text[t].selects_within(fonts) {
                assert(!selects_within(self@.text[t as int], fonts as int));
                return false;
            }
            t += 1;
        }
        true
    }
}

/// The mathematical content of a [`Page`].
pub struct PageView {
    pub width: int,
    pub height: int,
    pub text: Seq<Seq<Command>>,
}

impl PageView {
    /// Whether every `SetFont` command on the page selects one of the first `fonts` fonts.
    pub open spec fn selects_within(self, fonts: int) -> bool {
        forall|t: int| 0 <= t < self.text.len() ==> selects_within(#[trigger] self.text[t], fonts)
    }
}

impl View for Page {
    type V = PageView;

    open spec fn view(&self) -> PageView {
        PageView {
            width: self.width as int,
            height: self.height as int,
            text: self.text@.map_values(|t: Text| t@),
        }
    }
}

/// Pages, and the fonts that their `SetFont` commands select by index.
#[derive(Debug, Clone, PartialEq, Eq)]
pub struct Document {
    pub pages: Vec<Page>,
    pub fonts: Vec<Font>,
}

/// The mathematical content of a [`Document`].
pub struct DocumentView {
    pub pages: Seq<PageView>,
    pub fonts: Seq<FontView>,
}

impl View for Document {
    type V = DocumentView;

    open spec fn view(&self) -> DocumentView {
        DocumentView {
            pages: self.pages@.map_values(|p: Page| p@),
            fonts: self.fonts@.map_values(|f: Font| f@),
        }
    }
}

impl DocumentView {
    /// The document has one page with one text, and one font, which every
    /// `SetFont` command selects.
    pub open spec fn is_single_page(self) -> bool {
        &&& self.pages.len() == 1
        &&& self.pages[0].text.len() == 1
        &&& self.fonts.len() == 1
        &&& self.fonts_resolve()
    }

    /// Every `SetFont` command selects a font that the document holds.
    pub open spec fn fonts_resolve(self) -> bool {
        forall|p: int|
            0 <= p < self.pages.len() ==> (#[trigger] self.pages[p]).selects_within(
                self.fonts.len() as int,
            )
    }
}

impl Document {
    /// Whether every `SetFont` command selects a font that the document holds.
    pub fn fonts_resolve(&self) -> (ok: bool)
        ensures
            ok == self@.fonts_resolve(),
    {
        let fonts: usize = self.fonts.len();
        let mut p: usize = 0;
        while p < self.pages.len()
            invariant
                p <= self.pages.len(),
                fonts == self@.fonts.len(),
                forall|k: int|
                    0 <= k < p ==> (#[trigger] self@.pages[k]).selects_within(fonts as int),
            decreases self.pages.len() - p,
        {
            if !self.pages[p].selects_within(fonts) {
                assert(!self@.pages[p as int].selects_within(fonts as int));
                return false;
            }
            p += 1;
        }
        true
    }
}

} // verus!
