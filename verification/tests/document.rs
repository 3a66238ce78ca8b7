use typeset::{Document, Engine, Font, Node, Page, Style, SyntaxTree, Text, TextCommand};

fn font() -> Font {
    Font::from_tables(10, 8, vec![5], vec![]).unwrap()
}

fn text(commands: Vec<TextCommand>) -> Text {
    Text { commands }
}

fn page(text: Vec<Text>) -> Page {
    Page { width: 600, height: 800, text }
}

#[test]
fn a_typeset_document_selects_its_own_font() {
    let style = Style {
        width: 600,
        height: 800,
        margin_left: 50,
        margin_right: 50,
        margin_top: 70,
        font_families: vec![],
        font_size: 100,
        line_spacing: 1250,
    };
    let tree = SyntaxTree { nodes: vec![Node::Word("hello"), Node::Space, Node::Word("world")] };
    let document = Engine::new(&tree, style).typeset_with(font()).unwrap();
    assert!(document.fonts_resolve());
    assert_eq!(document.pages.len(), 1);
    assert_eq!(document.pages[0].text.len(), 1);
    assert_eq!(document.fonts.len(), 1);
}

#[test]
fn a_command_that_selects_a_font_beyond_the_list_does_not_resolve() {
    let commands = vec![
        TextCommand::SetFont(0, 10),
        TextCommand::Text("a".to_string()),
        TextCommand::SetFont(1, 10),
    ];
    let document = Document { pages: vec![page(vec![text(commands.clone())])], fonts: vec![font()] };
    assert!(!document.fonts_resolve());
    let document = Document { pages: vec![page(vec![text(commands)])], fonts: vec![font(), font()] };
    assert!(document.fonts_resolve());
}

#[test]
fn every_text_of_every_page_is_looked_at() {
    let good = text(vec![TextCommand::SetFont(0, 10)]);
    let bad = text(vec![TextCommand::Move(1, 2), TextCommand::SetFont(3, 10)]);
    let pages = vec![page(vec![good.clone(), good.clone()]), page(vec![]), page(vec![good, bad])];
    let document = Document { pages, fonts: vec![font(), font(), font()] };
    assert!(!document.fonts_resolve());
    assert!(document.pages[0].selects_within(3));
    assert!(document.pages[1].selects_within(0));
    assert!(!document.pages[2].selects_within(3));
    assert!(document.pages[2].selects_within(4));
}

#[test]
fn a_document_without_font_commands_resolves() {
    assert!(Document { pages: vec![], fonts: vec![] }.fonts_resolve());
    let commands = vec![TextCommand::Move(0, -5), TextCommand::Text("a".to_string())];
    assert!(Document { pages: vec![page(vec![text(commands)])], fonts: vec![] }.fonts_resolve());
}

#[test]
fn a_text_selects_within_the_fonts_it_names() {
    let commands = text(vec![TextCommand::SetFont(2, 10), TextCommand::SetFont(0, 12)]);
    assert!(!commands.selects_within(0));
    assert!(!commands.selects_within(2));
    assert!(commands.selects_within(3));
    assert!(text(vec![]).selects_within(0));
}
