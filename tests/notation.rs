use keyseq::key::{Key, KeyCode, Modifiers};
use keyseq::notation::{chord_to_key, parse_keys, ParseError, Parser};

const NONE: Modifiers = Modifiers { control: false, alt: false, shift: false };
const CONTROL: Modifiers = Modifiers { control: true, alt: false, shift: false };
const SHIFT: Modifiers = Modifiers { control: false, alt: false, shift: true };
const CONTROL_SHIFT: Modifiers = Modifiers { control: true, alt: false, shift: true };

fn key(code: KeyCode, modifiers: Modifiers) -> Key {
    Key { key: code, modifiers }
}

fn first(input: &str) -> Key {
    parse_keys(input).unwrap()[0]
}

#[test]
fn seq() {
    let keys = Parser::new("<C-t>").unwrap().parse().unwrap();
    assert_eq!(keys, vec![key(KeyCode::Char('t'), CONTROL)]);
}

#[test]
fn seq2() {
    let keys = Parser::new("<C-t><S-w>").unwrap().parse().unwrap();
    assert_eq!(keys, vec![key(KeyCode::Char('t'), CONTROL), key(KeyCode::Char('w'), SHIFT)]);
}

#[test]
fn seq3() {
    let keys = Parser::new("<C-t><S-<lt>>").unwrap().parse().unwrap();
    assert_eq!(keys, vec![key(KeyCode::Char('t'), CONTROL), key(KeyCode::Char('<'), SHIFT)]);
}

#[test]
fn seq4() {
    let keys = Parser::new("<lt>").unwrap().parse().unwrap();
    assert_eq!(keys, vec![key(KeyCode::Char('<'), NONE)]);
}

#[test]
fn uppercase_letters_carry_shift() {
    for c in 'A'..='Z' {
        let s = c.to_string();
        assert_eq!(parse_keys(&s).unwrap(), vec![key(KeyCode::Char(c), SHIFT)]);
    }
    assert_eq!(parse_keys("\u{c9}").unwrap(), vec![key(KeyCode::Char('\u{c9}'), SHIFT)]);
}

#[test]
fn plain_characters_carry_nothing() {
    for c in ('a'..='z').chain('0'..='9').chain("!\"#$%&'()*+,-./:;=?@[]^_`{}~ ".chars()) {
        let s = c.to_string();
        assert_eq!(parse_keys(&s).unwrap(), vec![key(KeyCode::Char(c), NONE)]);
    }
    assert_eq!(parse_keys("\u{e9}").unwrap(), vec![key(KeyCode::Char('\u{e9}'), NONE)]);
}

#[test]
fn empty_input_is_refused() {
    assert!(matches!(Parser::new(""), Err(ParseError::EmptyInput)));
    assert_eq!(parse_keys(""), Err(ParseError::EmptyInput));
}

#[test]
fn function_keys_and_tab() {
    assert_eq!(parse_keys("<C-S-F11>").unwrap(), vec![key(KeyCode::F(11), CONTROL_SHIFT)]);
    assert_eq!(parse_keys("<S-Tab>").unwrap(), vec![key(KeyCode::BackTab, SHIFT)]);
    assert_eq!(parse_keys("<Tab>").unwrap(), vec![key(KeyCode::Tab, NONE)]);
    for n in 1u8..=12 {
        let s = format!("<F{n}>");
        assert_eq!(first(&s), key(KeyCode::F(n), NONE));
    }
    assert!(matches!(parse_keys("<F13>"), Err(ParseError::InvalidKeyName { .. })));
    assert!(matches!(parse_keys("<F0>"), Err(ParseError::InvalidKeyName { .. })));
}

#[test]
fn unterminated_chord_is_an_error() {
    assert_eq!(parse_keys("<C-t"), Err(ParseError::UnterminatedChord));
    assert_eq!(parse_keys("<"), Err(ParseError::UnterminatedChord));
    assert_eq!(parse_keys("a<S-<lt>"), Err(ParseError::UnterminatedChord));
    let mut parser = Parser::new("x<C-t").unwrap();
    parser.idx = 1;
    assert_eq!(parser.chord(), Err(ParseError::UnterminatedChord));
}

#[test]
fn invalid_key_name_reports_name_and_chord() {
    let err = parse_keys("a<C-Foo>").unwrap_err();
    assert_eq!(
        err,
        ParseError::InvalidKeyName {
            name: vec!['F', 'o', 'o'],
            chord: vec!['<', 'C', '-', 'F', 'o', 'o', '>'],
        }
    );
}

#[test]
fn chord_boundary_skips_nested_brackets() {
    let mut parser = Parser::new("a<S-<lt>>b").unwrap();
    parser.idx = 1;
    assert_eq!(parser.chord(), Ok((1, 8)));
    assert_eq!(parser.idx, 8);
    assert_eq!(parser.start, 1);
}

#[test]
fn modifiers_do_not_carry_over() {
    assert_eq!(
        parse_keys("A<C-b>c").unwrap(),
        vec![key(KeyCode::Char('A'), SHIFT), key(KeyCode::Char('b'), CONTROL), key(KeyCode::Char('c'), NONE)]
    );
}

#[test]
fn empty_chord_is_null() {
    assert_eq!(parse_keys("<>").unwrap(), vec![key(KeyCode::Null, NONE)]);
    assert_eq!(parse_keys("<C->").unwrap(), vec![key(KeyCode::Null, CONTROL)]);
}

#[test]
fn chord_to_key_on_its_own() {
    assert_eq!(chord_to_key(&['<', 'C', '-', 'A', '>']), Ok(key(KeyCode::Char('A'), CONTROL_SHIFT)));
    assert_eq!(chord_to_key(&['<', 'g', 't', '>']), Ok(key(KeyCode::Char('>'), NONE)));
}

#[test]
fn table_backspace_tab_enter() {
    assert_eq!(first("<BS>"), key(KeyCode::Backspace, NONE));
    assert_eq!(first("<C-BS>"), key(KeyCode::Backspace, CONTROL));
    assert_eq!(first("<Backspace>"), key(KeyCode::Backspace, NONE));
    assert_eq!(first("<C-S-Tab>"), key(KeyCode::BackTab, CONTROL_SHIFT));
    assert_eq!(first("<S-Tab>"), key(KeyCode::BackTab, SHIFT));
    assert_eq!(first("<C-Tab>"), key(KeyCode::Tab, CONTROL));
    assert_eq!(first("<Tab>"), key(KeyCode::Tab, NONE));
    assert_eq!(first("<CR>"), key(KeyCode::Enter, NONE));
    assert_eq!(first("<C-CR>"), key(KeyCode::Enter, CONTROL));
    assert_eq!(first("<Return>"), key(KeyCode::Enter, NONE));
    assert_eq!(first("<C-Return>"), key(KeyCode::Enter, CONTROL));
    assert_eq!(first("<Enter>"), key(KeyCode::Enter, NONE));
    assert_eq!(first("<C-Enter>"), key(KeyCode::Enter, CONTROL));
}

#[test]
fn table_function_keys() {
    assert_eq!(first("<C-S-F11>"), key(KeyCode::F(11), CONTROL_SHIFT));
    assert_eq!(first("<S-F11>"), key(KeyCode::F(11), SHIFT));
    assert_eq!(first("<F11>"), key(KeyCode::F(11), NONE));
}

#[test]
fn table_cursor_keys() {
    assert_eq!(first("<Up>"), key(KeyCode::Up, NONE));
    assert_eq!(first("<Down>"), key(KeyCode::Down, NONE));
    assert_eq!(first("<Left>"), key(KeyCode::Left, NONE));
    assert_eq!(first("<Right>"), key(KeyCode::Right, NONE));
    assert_eq!(first("<S-Up>"), key(KeyCode::Up, SHIFT));
    assert_eq!(first("<S-Down>"), key(KeyCode::Down, SHIFT));
    assert_eq!(first("<S-Left>"), key(KeyCode::Left, SHIFT));
    assert_eq!(first("<S-Right>"), key(KeyCode::Right, SHIFT));
    assert_eq!(first("<C-Left>"), key(KeyCode::Left, CONTROL));
    assert_eq!(first("<C-Right>"), key(KeyCode::Right, CONTROL));
    assert_eq!(first("<C-Up>"), key(KeyCode::Up, CONTROL));
    assert_eq!(first("<C-Down>"), key(KeyCode::Down, CONTROL));
}

#[test]
fn table_navigation_keys() {
    assert_eq!(first("<Home>"), key(KeyCode::Home, NONE));
    assert_eq!(first("<C-Home>"), key(KeyCode::Home, CONTROL));
    assert_eq!(first("<End>"), key(KeyCode::End, NONE));
    assert_eq!(first("<C-End>"), key(KeyCode::End, CONTROL));
    assert_eq!(first("<Insert>"), key(KeyCode::Insert, NONE));
    assert_eq!(first("<PageUp>"), key(KeyCode::PageUp, NONE));
    assert_eq!(first("<C-PageUp>"), key(KeyCode::PageUp, CONTROL));
    assert_eq!(first("<PageDown>"), key(KeyCode::PageDown, NONE));
    assert_eq!(first("<C-PageDown>"), key(KeyCode::PageDown, CONTROL));
    assert_eq!(first("<Del>"), key(KeyCode::Delete, NONE));
    assert_eq!(first("<C-Del>"), key(KeyCode::Delete, CONTROL));
    assert_eq!(first("<Esc>"), key(KeyCode::Esc, NONE));
    assert_eq!(first("<C-Esc>"), key(KeyCode::Esc, CONTROL));
}

#[test]
fn table_escaped_characters() {
    assert_eq!(first("<lt>"), key(KeyCode::Char('<'), NONE));
    assert_eq!(first("<C-S-lt>"), key(KeyCode::Char('<'), CONTROL_SHIFT));
    assert_eq!(first("<gt>"), key(KeyCode::Char('>'), NONE));
    assert_eq!(first("<C-S-gt>"), key(KeyCode::Char('>'), CONTROL_SHIFT));
    assert_eq!(first("<C-Space>"), key(KeyCode::Char(' '), CONTROL));
    assert_eq!(first("<Space>"), key(KeyCode::Char(' '), NONE));
    assert_eq!(first("<C-S-Space>"), key(KeyCode::Char(' '), CONTROL_SHIFT));
    assert_eq!(first("<Bslash>"), key(KeyCode::Char('\\'), NONE));
    assert_eq!(first("\\"), key(KeyCode::Char('\\'), NONE));
    assert_eq!(first("|"), key(KeyCode::Char('|'), NONE));
    assert_eq!(first("<Bar>"), key(KeyCode::Char('|'), NONE));
    assert_eq!(first("<S-|>"), key(KeyCode::Char('|'), SHIFT));
    assert_eq!(first("<S-Bar>"), key(KeyCode::Char('|'), SHIFT));
}

#[test]
fn table_plain_characters() {
    let all = Modifiers { control: true, alt: true, shift: true };
    assert_eq!(first("a"), key(KeyCode::Char('a'), NONE));
    assert_eq!(first("A"), key(KeyCode::Char('A'), SHIFT));
    assert_eq!(first("<C-a>"), key(KeyCode::Char('a'), CONTROL));
    assert_eq!(first("<C-A>"), key(KeyCode::Char('A'), CONTROL_SHIFT));
    assert_eq!(first("5"), key(KeyCode::Char('5'), NONE));
    assert_eq!(first("<C-A-S-5>"), key(KeyCode::Char('5'), all));
    assert_eq!(first("_"), key(KeyCode::Char('_'), NONE));
    assert_eq!(first("-"), key(KeyCode::Char('-'), NONE));
    assert_eq!(first("<C-S-->"), key(KeyCode::Char('-'), CONTROL_SHIFT));
    assert_eq!(first("%"), key(KeyCode::Char('%'), NONE));
}

#[test]
fn extra_names() {
    assert_eq!(first("<Enter>"), key(KeyCode::Enter, NONE));
    assert_eq!(first("<Backspace>"), key(KeyCode::Backspace, NONE));
    assert_eq!(first("<A-x>"), key(KeyCode::Char('x'), Modifiers { control: false, alt: true, shift: false }));
    assert_eq!(first("<C-C-t>"), key(KeyCode::Char('t'), CONTROL));
}
