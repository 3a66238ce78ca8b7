use typeset::{Engine, Font, Node, Style, SyntaxTree, TextCommand};

/// A small generator of numbers that look random and are the same on every run.
struct Numbers(u64);

impl Numbers {
    fn next(&mut self, below: u64) -> u64 {
        self.0 = self.0.wrapping_mul(6364136223846793005).wrapping_add(1442695040888963407);
        (self.0 >> 33) % below
    }
}

const UNITS_PER_EM: u16 = 16;
const ASCENDER: i16 = 13;

/// Advance of each of the letters a to h; glyph 0 is the missing glyph and glyph 1 the space.
const ADVANCES: [u16; 10] = [7, 4, 3, 5, 8, 11, 13, 2, 9, 16];

fn font() -> Font {
    let mut glyphs = vec![0u16; 128];
    glyphs[' ' as usize] = 1;
    for (i, c) in ('a'..='h').enumerate() {
        glyphs[c as usize] = 2 + i as u16;
    }
    Font::from_tables(UNITS_PER_EM, ASCENDER, ADVANCES.to_vec(), glyphs).unwrap()
}

fn advance(c: char) -> i128 {
    match c {
        ' ' => ADVANCES[1] as i128,
        'a'..='h' => ADVANCES[2 + (c as usize - 'a' as usize)] as i128,
        _ => ADVANCES[0] as i128,
    }
}

fn width(text: &str, style: &Style) -> i128 {
    text.chars().map(|c| advance(c) * style.font_size as i128).sum()
}

/// The layout rule, written down once more without the library.
fn expected(style: &Style, nodes: &[Node]) -> Vec<TextCommand> {
    let room = (style.width as i128 - style.margin_left as i128 - style.margin_right as i128)
        * UNITS_PER_EM as i128;
    let height = style.font_size as i128 * style.line_spacing as i128 * ASCENDER as i128
        / (1000 * UNITS_PER_EM as i128);
    let mut commands = vec![
        TextCommand::Move(style.margin_left as i64, style.height as i64 - style.margin_top as i64),
        TextCommand::SetFont(0, style.font_size),
    ];
    let mut on_line = 0usize;
    let mut used: i128 = 0;
    for node in nodes {
        match node {
            Node::Word(word) => {
                let w = width(word, style);
                if used + w > room {
                    commands.push(TextCommand::Move(0, -(height as i64)));
                    on_line = 0;
                    used = 0;
                }
                commands.push(TextCommand::Text(word.to_string()));
                on_line += word.len();
                used += w;
            }
            Node::Space => {
                let w = width(" ", style);
                if used + w <= room && on_line > 0 {
                    commands.push(TextCommand::Text(" ".to_string()));
                    on_line += 1;
                    used += w;
                }
            }
            _ => {}
        }
    }
    commands
}

const WORDS: [&str; 12] =
    ["", "a", "b", "ab", "hag", "cafe", "bead", "faced", "x", "headache", "abcdefgh", "zz"];

fn nodes(numbers: &mut Numbers) -> Vec<Node<'static>> {
    let count = numbers.next(40) as usize;
    let mut nodes = Vec::new();
    for _ in 0..count {
        nodes.push(match numbers.next(8) {
            0 | 1 => Node::Space,
            2 => Node::Newline,
            _ => Node::Word(WORDS[numbers.next(WORDS.len() as u64) as usize]),
        });
    }
    nodes
}

fn style(numbers: &mut Numbers) -> Style {
    Style {
        width: numbers.next(400) as u32,
        height: numbers.next(1000) as u32,
        margin_left: numbers.next(60) as u32,
        margin_right: numbers.next(60) as u32,
        margin_top: numbers.next(100) as u32,
        font_families: vec![],
        font_size: numbers.next(30) as u32,
        line_spacing: numbers.next(3000) as u16,
    }
}

#[test]
fn many_layouts_follow_the_rule() {
    let mut numbers = Numbers(2024);
    for _ in 0..2000 {
        let style = style(&mut numbers);
        let tree = SyntaxTree { nodes: nodes(&mut numbers) };
        let wanted = expected(&style, &tree.nodes);
        let document = Engine::new(&tree, style).typeset_with(font()).unwrap();
        assert_eq!(document.pages[0].text[0].commands, wanted);
        assert!(document.fonts_resolve());
    }
}

#[test]
fn many_layouts_keep_their_lines_within_the_room() {
    let mut numbers = Numbers(7);
    for _ in 0..500 {
        let style = style(&mut numbers);
        let room = (style.width as i128 - style.margin_left as i128 - style.margin_right as i128)
            * UNITS_PER_EM as i128;
        let tree = SyntaxTree { nodes: nodes(&mut numbers) };
        let document = Engine::new(&tree, style.clone()).typeset_with(font()).unwrap();
        let mut used: i128 = 0;
        let mut texts = 0;
        for command in document.pages[0].text[0].commands.iter().skip(2) {
            match command {
                TextCommand::Move(dx, _) => {
                    assert_eq!(*dx, 0);
                    used = 0;
                    texts = 0;
                }
                TextCommand::Text(text) => {
                    used += width(text, &style);
                    texts += 1;
                    // Only a single word may be wider than the line.
                    assert!(used <= room || texts == 1);
                }
                TextCommand::SetFont(_, _) => panic!("the font is selected once"),
            }
        }
    }
}

#[test]
fn many_layouts_ignore_newlines_and_leading_spaces() {
    let mut numbers = Numbers(99);
    for _ in 0..500 {
        let style = style(&mut numbers);
        let all = nodes(&mut numbers);
        let mut kept: Vec<Node> = all.iter().filter(|n| **n != Node::Newline).cloned().collect();
        while kept.first() == Some(&Node::Space) {
            kept.remove(0);
        }
        let with = SyntaxTree { nodes: all };
        let without = SyntaxTree { nodes: kept };
        assert_eq!(
            Engine::new(&with, style.clone()).typeset_with(font()).unwrap(),
            Engine::new(&without, style).typeset_with(font()).unwrap()
        );
    }
}
