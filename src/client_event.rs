use vstd::prelude::*;

use vstd::string::StringExecFns;

use crate::text::push_char;

verus! {

/// A keystroke.
#[derive(Debug, Clone, Copy, PartialEq, Eq, Structural, Hash)]
pub enum Key {
    Null,
    Backspace,
    Enter,
    Left,
    Right,
    Up,
    Down,
    Home,
    End,
    PageUp,
    PageDown,
    Tab,
    Delete,
    F(u8),
    Char(char),
    Ctrl(char),
    Alt(char),
    Esc,
}

#[derive(Debug, Clone, Copy, PartialEq, Eq, Structural)]
pub enum KeyParseError {
    UnexpectedEnd,
    InvalidCharacter(char),
}

pub open spec fn is_ascii_char(c: char) -> bool {
    (c as u32) < 128
}

pub open spec fn is_ascii_alnum(c: char) -> bool {
    ('a' <= c && c <= 'z') || ('A' <= c && c <= 'Z') || ('0' <= c && c <= '9')
}

pub open spec fn digit_char(n: int) -> char {
    ((n + 48) as u32) as char
}

/// The keys that have a textual form.
pub open spec fn key_is_valid(k: Key) -> bool {
    match k {
        Key::Null => false,
        Key::F(n) => 1 <= n <= 12,
        Key::Char(c) => is_ascii_char(c),
        Key::Ctrl(c) => is_ascii_alnum(c),
        Key::Alt(c) => is_ascii_alnum(c),
        _ => true,
    }
}

/// The canonical textual form of a key.
pub open spec fn key_text(k: Key) -> Seq<char> {
    match k {
        Key::Null => seq![],
        Key::Backspace => seq!['<', 'b', 'a', 'c', 'k', 's', 'p', 'a', 'c', 'e', '>'],
        Key::Enter => seq!['<', 'e', 'n', 't', 'e', 'r', '>'],
        Key::Left => seq!['<', 'l', 'e', 'f', 't', '>'],
        Key::Right => seq!['<', 'r', 'i', 'g', 'h', 't', '>'],
        Key::Up => seq!['<', 'u', 'p', '>'],
        Key::Down => seq!['<', 'd', 'o', 'w', 'n', '>'],
        Key::Home => seq!['<', 'h', 'o', 'm', 'e', '>'],
        Key::End => seq!['<', 'e', 'n', 'd', '>'],
        Key::PageUp => seq!['<', 'p', 'a', 'g', 'e', 'u', 'p', '>'],
        Key::PageDown => seq!['<', 'p', 'a', 'g', 'e', 'd', 'o', 'w', 'n', '>'],
        Key::Tab => seq!['<', 't', 'a', 'b', '>'],
        Key::Delete => seq!['<', 'd', 'e', 'l', 'e', 't', 'e', '>'],
        Key::Esc => seq!['<', 'e', 's', 'c', '>'],
        Key::F(n) => if n < 10 {
            seq!['<', 'f', digit_char(n as int), '>']
        } else if n < 20 {
            seq!['<', 'f', '1', digit_char(n - 10), '>']
        } else {
            seq![]
        },
        Key::Char(c) => if c == ' ' {
            seq!['<', 's', 'p', 'a', 'c', 'e', '>']
        } else if c == '\\' {
            seq!['\\', '\\']
        } else if c == '<' {
            seq!['\\', '<']
        } else {
            seq![c]
        },
        Key::Ctrl(c) => seq!['<', 'c', '-', c, '>'],
        Key::Alt(c) => seq!['<', 'a', '-', c, '>'],
    }
}

pub open spec fn at(s: Seq<char>, i: int) -> Option<char> {
    if 0 <= i < s.len() {
        Some(s[i])
    } else {
        None
    }
}

/// Checks that `lit` stands in `s` at `i`: `None` when it does, else the error
/// at the first character that differs or is missing.
pub open spec fn expect_text(s: Seq<char>, i: int, lit: Seq<char>) -> Option<KeyParseError>
    decreases lit.len(),
{
    if lit.len() == 0 {
        None
    } else {
        match at(s, i) {
            None => Some(KeyParseError::UnexpectedEnd),
            Some(c) => if c != lit[0] {
                Some(KeyParseError::InvalidCharacter(c))
            } else {
                expect_text(s, i + 1, lit.drop_first())
            },
        }
    }
}

/// `key` once `lit` has been read at `i`, ending the key at `i + lit.len()`.
pub open spec fn finish(s: Seq<char>, i: int, lit: Seq<char>, key: Key) -> Result<
    (Key, nat),
    KeyParseError,
> {
    match expect_text(s, i, lit) {
        Some(e) => Err(e),
        None => Ok((key, (i + lit.len()) as nat)),
    }
}

pub open spec fn parse_function_key(s: Seq<char>) -> Result<(Key, nat), KeyParseError> {
    match at(s, 2) {
        None => Err(KeyParseError::UnexpectedEnd),
        Some(d) => if d == '1' {
            match at(s, 3) {
                None => Err(KeyParseError::UnexpectedEnd),
                Some(e) => if e == '>' {
                    Ok((Key::F(1), 4))
                } else if '0' <= e && e <= '2' {
                    finish(s, 4, seq!['>'], Key::F((10 + (e as u32 - 48)) as u8))
                } else {
                    Err(KeyParseError::InvalidCharacter(e))
                },
            }
        } else if '2' <= d && d <= '9' {
            finish(s, 3, seq!['>'], Key::F((d as u32 - 48) as u8))
        } else {
            Err(KeyParseError::InvalidCharacter(d))
        },
    }
}

pub open spec fn parse_modified_key(s: Seq<char>, ctrl: bool) -> Result<(Key, nat), KeyParseError> {
    match expect_text(s, 2, seq!['-']) {
        Some(e) => Err(e),
        None => match at(s, 3) {
            None => Err(KeyParseError::UnexpectedEnd),
            Some(c) => if is_ascii_alnum(c) {
                finish(s, 4, seq!['>'], if ctrl { Key::Ctrl(c) } else { Key::Alt(c) })
            } else {
                Err(KeyParseError::InvalidCharacter(c))
            },
        },
    }
}

/// The grammar of a key written between `<` and `>`.
pub open spec fn parse_named_key(s: Seq<char>) -> Result<(Key, nat), KeyParseError> {
    match at(s, 1) {
        None => Err(KeyParseError::UnexpectedEnd),
        Some(c) => if c == 'b' {
            finish(s, 2, seq!['a', 'c', 'k', 's', 'p', 'a', 'c', 'e', '>'], Key::Backspace)
        } else if c == 's' {
            finish(s, 2, seq!['p', 'a', 'c', 'e', '>'], Key::Char(' '))
        } else if c == 'e' {
            match at(s, 2) {
                None => Err(KeyParseError::UnexpectedEnd),
                Some(c2) => if c2 == 'n' {
                    match at(s, 3) {
                        None => Err(KeyParseError::UnexpectedEnd),
                        Some(c3) => if c3 == 't' {
                            finish(s, 4, seq!['e', 'r', '>'], Key::Enter)
                        } else if c3 == 'd' {
                            finish(s, 4, seq!['>'], Key::End)
                        } else {
                            Err(KeyParseError::InvalidCharacter(c3))
                        },
                    }
                } else if c2 == 's' {
                    finish(s, 3, seq!['c', '>'], Key::Esc)
                } else {
                    Err(KeyParseError::InvalidCharacter(c2))
                },
            }
        } else if c == 'l' {
            finish(s, 2, seq!['e', 'f', 't', '>'], Key::Left)
        } else if c == 'r' {
            finish(s, 2, seq!['i', 'g', 'h', 't', '>'], Key::Right)
        } else if c == 'u' {
            finish(s, 2, seq!['p', '>'], Key::Up)
        } else if c == 'd' {
            match at(s, 2) {
                None => Err(KeyParseError::UnexpectedEnd),
                Some(c2) => if c2 == 'o' {
                    finish(s, 3, seq!['w', 'n', '>'], Key::Down)
                } else if c2 == 'e' {
                    finish(s, 3, seq!['l', 'e', 't', 'e', '>'], Key::Delete)
                } else {
                    Err(KeyParseError::InvalidCharacter(c2))
                },
            }
        } else if c == 'h' {
            finish(s, 2, seq!['o', 'm', 'e', '>'], Key::Home)
        } else if c == 'p' {
            match expect_text(s, 2, seq!['a', 'g', 'e']) {
                Some(e) => Err(e),
                None => match at(s, 5) {
                    None => Err(KeyParseError::UnexpectedEnd),
                    Some(c5) => if c5 == 'u' {
                        finish(s, 6, seq!['p', '>'], Key::PageUp)
                    } else if c5 == 'd' {
                        finish(s, 6, seq!['o', 'w', 'n', '>'], Key::PageDown)
                    } else {
                        Err(KeyParseError::InvalidCharacter(c5))
                    },
                },
            }
        } else if c == 't' {
            finish(s, 2, seq!['a', 'b', '>'], Key::Tab)
        } else if c == 'f' {
            parse_function_key(s)
        } else if c == 'c' {
            parse_modified_key(s, true)
        } else if c == 'a' {
            parse_modified_key(s, false)
        } else {
            Err(KeyParseError::InvalidCharacter(c))
        },
    }
}

/// The key syntax: one key read from the start of `s`, with the number of
/// characters it took.
pub open spec fn parse_key(s: Seq<char>) -> Result<(Key, nat), KeyParseError> {
    match at(s, 0) {
        None => Err(KeyParseError::UnexpectedEnd),
        Some(c) => if c == '\\' {
            match at(s, 1) {
                None => Err(KeyParseError::UnexpectedEnd),
                Some(e) => if e == '\\' || e == '<' {
                    Ok((Key::Char(e), 2))
                } else {
                    Err(KeyParseError::InvalidCharacter(e))
                },
            }
        } else if c == '<' {
            parse_named_key(s)
        } else if is_ascii_char(c) {
            Ok((Key::Char(c), 1))
        } else {
            Err(KeyParseError::InvalidCharacter(c))
        },
    }
}

/// An executable parse result agrees with a spec one.
pub open spec fn same_result(
    r: Result<(Key, usize), KeyParseError>,
    s: Result<(Key, nat), KeyParseError>,
) -> bool {
    match (r, s) {
        (Ok((k, n)), Ok((k2, n2))) => k == k2 && n as nat == n2,
        (Err(e), Err(e2)) => e == e2,
        _ => false,
    }
}

fn char_at(chars: &[char], i: usize) -> (r: Option<char>)
    ensures
        r == at(chars@, i as int),
{
    if i < chars.len() {
        Some(chars[i])
    } else {
        None
    }
}

fn expect(chars: &[char], i: usize, lit: &[char]) -> (r: Option<KeyParseError>)
    requires
        i + lit@.len() < usize::MAX,
    ensures
        r == expect_text(chars@, i as int, lit@),
{
    let mut j: usize = 0;
    assert(lit@.subrange(0, lit@.len() as int) =~= lit@);
    while j < lit.len()
        invariant
            j <= lit@.len(),
            i + lit@.len() < usize::MAX,
            expect_text(chars@, i as int, lit@) == expect_text(
                chars@,
                i + j,
                lit@.subrange(j as int, lit@.len() as int),
            ),
        decreases lit@.len() - j,
    {
        let sub = Ghost(lit@.subrange(j as int, lit@.len() as int));
        assert(sub@.drop_first() =~= lit@.subrange(j + 1, lit@.len() as int));
        match char_at(chars, i + j) {
            None => {
                return Some(KeyParseError::UnexpectedEnd);
            },
            Some(c) => {
                if c != lit[j] {
                    return Some(KeyParseError::InvalidCharacter(c));
                }
            },
        }
        j += 1;
    }
    None
}

fn finish_key(chars: &[char], i: usize, lit: &[char], key: Key) -> (r: Result<(Key, usize), KeyParseError>)
    requires
        i + lit@.len() < usize::MAX,
    ensures
        same_result(r, finish(chars@, i as int, lit@, key)),
{
    match expect(chars, i, lit) {
        Some(e) => Err(e),
        None => Ok((key, i + lit.len())),
    }
}

fn parse_function_key_exec(chars: &[char]) -> (r: Result<(Key, usize), KeyParseError>)
    ensures
        same_result(r, parse_function_key(chars@)),
{
    match char_at(chars, 2) {
        None => Err(KeyParseError::UnexpectedEnd),
        Some(d) => if d == '1' {
            match char_at(chars, 3) {
                None => Err(KeyParseError::UnexpectedEnd),
                Some(e) => if e == '>' {
                    Ok((Key::F(1), 4))
                } else if '0' <= e && e <= '2' {
                    {
                        let lit: &[char] = &['>'];
                        assert(lit@ =~= seq!['>']);
                        finish_key(chars, 4, lit, Key::F((10 + (e as u32 - 48)) as u8))
                    }
                } else {
                    Err(KeyParseError::InvalidCharacter(e))
                },
            }
        } else if '2' <= d && d <= '9' {
            {
                let lit: &[char] = &['>'];
                assert(lit@ =~= seq!['>']);
                finish_key(chars, 3, lit, Key::F((d as u32 - 48) as u8))
            }
        } else {
            Err(KeyParseError::InvalidCharacter(d))
        },
    }
}

fn is_ascii_alnum_exec(c: char) -> (r: bool)
    ensures
        r == is_ascii_alnum(c),
{
    ('a' <= c && c <= 'z') || ('A' <= c && c <= 'Z') || ('0' <= c && c <= '9')
}

fn parse_modified_key_exec(chars: &[char], ctrl: bool) -> (r: Result<(Key, usize), KeyParseError>)
    ensures
        same_result(r, parse_modified_key(chars@, ctrl)),
{
    let dash: &[char] = &['-'];
    assert(dash@ =~= seq!['-']);
    match expect(chars, 2, dash) {
        Some(e) => Err(e),
        None => match char_at(chars, 3) {
            None => Err(KeyParseError::UnexpectedEnd),
            Some(c) => if is_ascii_alnum_exec(c) {
                {
                    let lit: &[char] = &['>'];
                    assert(lit@ =~= seq!['>']);
                    finish_key(chars, 4, lit, if ctrl { Key::Ctrl(c) } else { Key::Alt(c) })
                }
            } else {
                Err(KeyParseError::InvalidCharacter(c))
            },
        },
    }
}

fn parse_named_key_exec(chars: &[char]) -> (r: Result<(Key, usize), KeyParseError>)
    ensures
        same_result(r, parse_named_key(chars@)),
{
    match char_at(chars, 1) {
        None => Err(KeyParseError::UnexpectedEnd),
        Some(c) => if c == 'b' {
            {
                let lit: &[char] = &['a', 'c', 'k', 's', 'p', 'a', 'c', 'e', '>'];
                assert(lit@ =~= seq!['a', 'c', 'k', 's', 'p', 'a', 'c', 'e', '>']);
                finish_key(chars, 2, lit, Key::Backspace)
            }
        } else if c == 's' {
            {
                let lit: &[char] = &['p', 'a', 'c', 'e', '>'];
                assert(lit@ =~= seq!['p', 'a', 'c', 'e', '>']);
                finish_key(chars, 2, lit, Key::Char(' '))
            }
        } else if c == 'e' {
            match char_at(chars, 2) {
                None => Err(KeyParseError::UnexpectedEnd),
                Some(c2) => if c2 == 'n' {
                    match char_at(chars, 3) {
                        None => Err(KeyParseError::UnexpectedEnd),
                        Some(c3) => if c3 == 't' {
                            {
                                let lit: &[char] = &['e', 'r', '>'];
                                assert(lit@ =~= seq!['e', 'r', '>']);
                                finish_key(chars, 4, lit, Key::Enter)
                            }
                        } else if c3 == 'd' {
                            {
                                let lit: &[char] = &['>'];
                                assert(lit@ =~= seq!['>']);
                                finish_key(chars, 4, lit, Key::End)
                            }
                        } else {
                            Err(KeyParseError::InvalidCharacter(c3))
                        },
                    }
                } else if c2 == 's' {
                    {
                        let lit: &[char] = &['c', '>'];
                        assert(lit@ =~= seq!['c', '>']);
                        finish_key(chars, 3, lit, Key::Esc)
                    }
                } else {
                    Err(KeyParseError::InvalidCharacter(c2))
                },
            }
        } else if c == 'l' {
            {
                let lit: &[char] = &['e', 'f', 't', '>'];
                assert(lit@ =~= seq!['e', 'f', 't', '>']);
                finish_key(chars, 2, lit, Key::Left)
            }
        } else if c == 'r' {
            {
                let lit: &[char] = &['i', 'g', 'h', 't', '>'];
                assert(lit@ =~= seq!['i', 'g', 'h', 't', '>']);
                finish_key(chars, 2, lit, Key::Right)
            }
        } else if c == 'u' {
            {
                let lit: &[char] = &['p', '>'];
                assert(lit@ =~= seq!['p', '>']);
                finish_key(chars, 2, lit, Key::Up)
            }
        } else if c == 'd' {
            match char_at(chars, 2) {
                None => Err(KeyParseError::UnexpectedEnd),
                Some(c2) => if c2 == 'o' {
                    {
                        let lit: &[char] = &['w', 'n', '>'];
                        assert(lit@ =~= seq!['w', 'n', '>']);
                        finish_key(chars, 3, lit, Key::Down)
                    }
                } else if c2 == 'e' {
                    {
                        let lit: &[char] = &['l', 'e', 't', 'e', '>'];
                        assert(lit@ =~= seq!['l', 'e', 't', 'e', '>']);
                        finish_key(chars, 3, lit, Key::Delete)
                    }
                } else {
                    Err(KeyParseError::InvalidCharacter(c2))
                },
            }
        } else if c == 'h' {
            {
                let lit: &[char] = &['o', 'm', 'e', '>'];
                assert(lit@ =~= seq!['o', 'm', 'e', '>']);
                finish_key(chars, 2, lit, Key::Home)
            }
        } else if c == 'p' {
            match {
                let lit: &[char] = &['a', 'g', 'e'];
                assert(lit@ =~= seq!['a', 'g', 'e']);
                expect(chars, 2, lit)
            } {
                Some(e) => Err(e),
                None => match char_at(chars, 5) {
                    None => Err(KeyParseError::UnexpectedEnd),
                    Some(c5) => if c5 == 'u' {
                        {
                            let lit: &[char] = &['p', '>'];
                            assert(lit@ =~= seq!['p', '>']);
                            finish_key(chars, 6, lit, Key::PageUp)
                        }
                    } else if c5 == 'd' {
                        {
                            let lit: &[char] = &['o', 'w', 'n', '>'];
                            assert(lit@ =~= seq!['o', 'w', 'n', '>']);
                            finish_key(chars, 6, lit, Key::PageDown)
                        }
                    } else {
                        Err(KeyParseError::InvalidCharacter(c5))
                    },
                },
            }
        } else if c == 't' {
            {
                let lit: &[char] = &['a', 'b', '>'];
                assert(lit@ =~= seq!['a', 'b', '>']);
                finish_key(chars, 2, lit, Key::Tab)
            }
        } else if c == 'f' {
            parse_function_key_exec(chars)
        } else if c == 'c' {
            parse_modified_key_exec(chars, true)
        } else if c == 'a' {
            parse_modified_key_exec(chars, false)
        } else {
            Err(KeyParseError::InvalidCharacter(c))
        },
    }
}

pub fn digit(n: u8) -> (r: char)
    requires
        n < 10,
    ensures
        r == digit_char(n as int),
{
    ((n + 48) as u8) as char
}

fn push_all(s: &mut String, cs: &[char])
    ensures
        final(s)@ == old(s)@ + cs@,
{
    let mut i: usize = 0;
    while i < cs.len()
        invariant
            i <= cs@.len(),
            s@ == old(s)@ + cs@.subrange(0, i as int),
        decreases cs@.len() - i,
    {
        assert(cs@.subrange(0, i as int + 1) =~= cs@.subrange(0, i as int).push(cs@[i as int]));
        push_char(s, cs[i]);
        i += 1;
    }
    assert(cs@.subrange(0, i as int) =~= cs@);
}

impl KeyParseError {
    /// A one-line description of the error.
    pub fn message(&self) -> (r: String)
        ensures
            *self == KeyParseError::UnexpectedEnd ==> r@ =~= "could not finish parsing key"@,
            forall|c: char| *self == KeyParseError::InvalidCharacter(c) ==> r@ =~= "invalid character "@.push(c),
    {
        let mut s = String::new();
        match *self {
            KeyParseError::UnexpectedEnd => {
                s.append("could not finish parsing key");
            },
            KeyParseError::InvalidCharacter(c) => {
                s.append("invalid character ");
                push_char(&mut s, c);
            },
        }
        s
    }
}

impl Key {
    /// The textual form of the key (empty for `Key::Null`, which has none).
    pub fn display(&self) -> (r: String)
        ensures
            r@ == key_text(*self),
    {
        let mut s = String::new();
        let cs: Vec<char> = match *self {
            Key::Null => vec![],
            Key::Backspace => vec!['<', 'b', 'a', 'c', 'k', 's', 'p', 'a', 'c', 'e', '>'],
            Key::Enter => vec!['<', 'e', 'n', 't', 'e', 'r', '>'],
            Key::Left => vec!['<', 'l', 'e', 'f', 't', '>'],
            Key::Right => vec!['<', 'r', 'i', 'g', 'h', 't', '>'],
            Key::Up => vec!['<', 'u', 'p', '>'],
            Key::Down => vec!['<', 'd', 'o', 'w', 'n', '>'],
            Key::Home => vec!['<', 'h', 'o', 'm', 'e', '>'],
            Key::End => vec!['<', 'e', 'n', 'd', '>'],
            Key::PageUp => vec!['<', 'p', 'a', 'g', 'e', 'u', 'p', '>'],
            Key::PageDown => vec!['<', 'p', 'a', 'g', 'e', 'd', 'o', 'w', 'n', '>'],
            Key::Tab => vec!['<', 't', 'a', 'b', '>'],
            Key::Delete => vec!['<', 'd', 'e', 'l', 'e', 't', 'e', '>'],
            Key::Esc => vec!['<', 'e', 's', 'c', '>'],
            Key::F(n) => if n < 10 {
                vec!['<', 'f', digit(n), '>']
            } else if n < 20 {
                vec!['<', 'f', '1', digit(n - 10), '>']
            } else {
                vec![]
            },
            Key::Char(c) => if c == ' ' {
                vec!['<', 's', 'p', 'a', 'c', 'e', '>']
            } else if c == '\\' {
                vec!['\\', '\\']
            } else if c == '<' {
                vec!['\\', '<']
            } else {
                vec![c]
            },
            Key::Ctrl(c) => vec!['<', 'c', '-', c, '>'],
            Key::Alt(c) => vec!['<', 'a', '-', c, '>'],
        };
        push_all(&mut s, cs.as_slice());
        assert(s@ =~= key_text(*self));
        s
    }

    /// Reads one key from the start of `chars`; on success returns it with the
    /// number of characters it took, the rest being left as it is.
    pub fn parse(chars: &[char]) -> (r: Result<(Key, usize), KeyParseError>)
        ensures
            same_result(r, parse_key(chars@)),
    {
        match char_at(chars, 0) {
            None => Err(KeyParseError::UnexpectedEnd),
            Some(c) => if c == '\\' {
                match char_at(chars, 1) {
                    None => Err(KeyParseError::UnexpectedEnd),
                    Some(e) => if e == '\\' || e == '<' {
                        Ok((Key::Char(e), 2))
                    } else {
                        Err(KeyParseError::InvalidCharacter(e))
                    },
                }
            } else if c == '<' {
                parse_named_key_exec(chars)
            } else if (c as u32) < 128 {
                Ok((Key::Char(c), 1))
            } else {
                Err(KeyParseError::InvalidCharacter(c))
            },
        }
    }
}

} // verus!

verus! {

/// Reading the textual form of a valid key gives the key back, whatever follows it.
pub proof fn lemma_parse_key_text(k: Key, rest: Seq<char>)
    requires
        key_is_valid(k),
    ensures
        parse_key(key_text(k) + rest) == Ok::<(Key, nat), KeyParseError>((k, key_text(k).len())),
{
    reveal_with_fuel(expect_text, 10);
    let s = key_text(k) + rest;
    assert(forall|i: int| 0 <= i < key_text(k).len() ==> s[i] == key_text(k)[i]);
    match k {
        Key::F(n) => {
            if n < 10 {
                assert(digit_char(n as int) as u32 == n + 48) by {
                    vstd::utf8::char_u32_cast(digit_char(n as int), (n + 48) as u32);
                }
            } else {
                assert(digit_char(n - 10) as u32 == n - 10 + 48) by {
                    vstd::utf8::char_u32_cast(digit_char(n - 10), (n - 10 + 48) as u32);
                }
            }
        },
        _ => {},
    }
}

/// Reading the textual form of a valid key, and nothing after it, gives the key back.
pub proof fn lemma_parse_display(k: Key)
    requires
        key_is_valid(k),
    ensures
        parse_key(key_text(k)) == Ok::<(Key, nat), KeyParseError>((k, key_text(k).len())),
{
    lemma_parse_key_text(k, seq![]);
    assert(key_text(k) + seq![] =~= key_text(k));
}

} // verus!
