use pepper::client_event::{Key, KeyParseError};

fn parse(text: &str) -> Key {
    let chars: Vec<char> = text.chars().collect();
    let (key, len) = Key::parse(&chars).unwrap();
    assert_eq!(chars.len(), len);
    key
}

fn parse_err(text: &str) -> KeyParseError {
    let chars: Vec<char> = text.chars().collect();
    Key::parse(&chars).unwrap_err()
}

#[test]
fn parse_key() {
    assert_eq!(Key::Backspace, parse("<backspace>"));
    assert_eq!(Key::Char(' '), parse("<space>"));
    assert_eq!(Key::Enter, parse("<enter>"));
    assert_eq!(Key::Left, parse("<left>"));
    assert_eq!(Key::Right, parse("<right>"));
    assert_eq!(Key::Up, parse("<up>"));
    assert_eq!(Key::Down, parse("<down>"));
    assert_eq!(Key::Home, parse("<home>"));
    assert_eq!(Key::End, parse("<end>"));
    assert_eq!(Key::PageUp, parse("<pageup>"));
    assert_eq!(Key::PageDown, parse("<pagedown>"));
    assert_eq!(Key::Tab, parse("<tab>"));
    assert_eq!(Key::Delete, parse("<delete>"));
    assert_eq!(Key::Esc, parse("<esc>"));

    for n in 1..=12 {
        let s = format!("<f{}>", n);
        assert_eq!(Key::F(n as _), parse(&s));
    }

    assert_eq!(Key::Ctrl('z'), parse("<c-z>"));
    assert_eq!(Key::Ctrl('0'), parse("<c-0>"));
    assert_eq!(Key::Ctrl('9'), parse("<c-9>"));

    assert_eq!(Key::Alt('a'), parse("<a-a>"));
    assert_eq!(Key::Alt('z'), parse("<a-z>"));
    assert_eq!(Key::Alt('0'), parse("<a-0>"));
    assert_eq!(Key::Alt('9'), parse("<a-9>"));

    assert_eq!(Key::Char('a'), parse("a"));
    assert_eq!(Key::Char('z'), parse("z"));
    assert_eq!(Key::Char('0'), parse("0"));
    assert_eq!(Key::Char('9'), parse("9"));
    assert_eq!(Key::Char('_'), parse("_"));
    assert_eq!(Key::Char('<'), parse("\\<"));
    assert_eq!(Key::Char('\\'), parse("\\\\"));
}

#[test]
fn parse_key_leaves_the_rest() {
    let chars: Vec<char> = "<c-a>xyz".chars().collect();
    assert_eq!(Ok((Key::Ctrl('a'), 5)), Key::parse(&chars));
    let chars: Vec<char> = "ab".chars().collect();
    assert_eq!(Ok((Key::Char('a'), 1)), Key::parse(&chars));
}

#[test]
fn parse_key_errors() {
    assert_eq!(KeyParseError::UnexpectedEnd, parse_err(""));
    assert_eq!(KeyParseError::UnexpectedEnd, parse_err("<back"));
    assert_eq!(KeyParseError::UnexpectedEnd, parse_err("\\"));
    assert_eq!(KeyParseError::InvalidCharacter('x'), parse_err("<x>"));
    assert_eq!(KeyParseError::InvalidCharacter('a'), parse_err("\\a"));
    assert_eq!(KeyParseError::InvalidCharacter('0'), parse_err("<f0>"));
    assert_eq!(KeyParseError::InvalidCharacter('3'), parse_err("<f13>"));
    assert_eq!(KeyParseError::InvalidCharacter('$'), parse_err("<c-$>"));
    assert_eq!(KeyParseError::InvalidCharacter('é'), parse_err("é"));
    assert_eq!(KeyParseError::InvalidCharacter('x'), parse_err("<enx>"));
}

#[test]
fn display_then_parse_gives_the_key_back() {
    let mut keys = vec![
        Key::Backspace,
        Key::Enter,
        Key::Left,
        Key::Right,
        Key::Up,
        Key::Down,
        Key::Home,
        Key::End,
        Key::PageUp,
        Key::PageDown,
        Key::Tab,
        Key::Delete,
        Key::Esc,
        Key::Char(' '),
        Key::Char('\\'),
        Key::Char('<'),
        Key::Char('>'),
        Key::Char('a'),
        Key::Char('~'),
        Key::Ctrl('a'),
        Key::Ctrl('Z'),
        Key::Alt('5'),
    ];
    for n in 1..=12 {
        keys.push(Key::F(n));
    }
    for key in keys {
        let text = key.display();
        assert_eq!(key, parse(&text), "{}", text);
    }
}

#[test]
fn display_texts() {
    assert_eq!("<space>", Key::Char(' ').display());
    assert_eq!("\\\\", Key::Char('\\').display());
    assert_eq!("\\<", Key::Char('<').display());
    assert_eq!("<f10>", Key::F(10).display());
    assert_eq!("<f7>", Key::F(7).display());
    assert_eq!("<c-x>", Key::Ctrl('x').display());
    assert_eq!("<a-1>", Key::Alt('1').display());
    assert_eq!("q", Key::Char('q').display());
}

#[test]
fn parse_error_messages() {
    assert_eq!("could not finish parsing key", KeyParseError::UnexpectedEnd.message());
    assert_eq!("invalid character x", KeyParseError::InvalidCharacter('x').message());
}
