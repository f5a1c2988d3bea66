use vstd::prelude::*;
use vstd::string::StrSliceExecFns;

use crate::client_event::Key;
use vstd::string::StringExecFns;

use crate::text::{clear_string, pop_char, push_char};

verus! {

pub const FNV_OFFSET_BASIS: u64 = 0xcbf29ce484222325;
pub const FNV_PRIME: u64 = 0x100000001b3;

/// FNV-1a over a byte sequence: start from the offset basis, and for each byte
/// xor it in and multiply by the prime, modulo 2^64.
pub open spec fn fnv1a(bytes: Seq<u8>) -> u64
    decreases bytes.len(),
{
    if bytes.len() == 0 {
        FNV_OFFSET_BASIS
    } else {
        let h = fnv1a(bytes.drop_last()) ^ (bytes.last() as u64);
        ((h as int * FNV_PRIME as int) % 0x1_0000_0000_0000_0000) as u64
    }
}

/// Hashes bytes with FNV-1a.
pub fn hash_bytes(bytes: &[u8]) -> (r: u64)
    ensures
        r == fnv1a(bytes@),
{
    let mut hash: u64 = FNV_OFFSET_BASIS;
    let mut i: usize = 0;
    while i < bytes.len()
        invariant
            i <= bytes@.len(),
            hash == fnv1a(bytes@.subrange(0, i as int)),
        decreases bytes@.len() - i,
    {
        proof {
            let p = bytes@.subrange(0, i as int + 1);
            assert(p.drop_last() =~= bytes@.subrange(0, i as int));
        }
        hash = hash ^ (bytes[i] as u64);
        hash = hash.wrapping_mul(FNV_PRIME);
        i += 1;
    }
    assert(bytes@.subrange(0, i as int) =~= bytes@);
    hash
}

} // verus!

verus! {

#[derive(Debug, Clone, Copy, PartialEq, Eq, Structural)]
pub enum ReadLinePoll {
    Pending,
    Submitted,
    Canceled,
}

pub open spec fn is_identifier_char(c: char) -> bool {
    ('a' <= c && c <= 'z') || ('A' <= c && c <= 'Z') || ('0' <= c && c <= '9') || c == '_'
}

/// `s` without its trailing characters that are not part of an identifier.
pub open spec fn trim_non_word(s: Seq<char>) -> Seq<char>
    decreases s.len(),
{
    if s.len() > 0 && !is_identifier_char(s.last()) {
        trim_non_word(s.drop_last())
    } else {
        s
    }
}

/// `s` without its trailing identifier characters.
pub open spec fn trim_word(s: Seq<char>) -> Seq<char>
    decreases s.len(),
{
    if s.len() > 0 && is_identifier_char(s.last()) {
        trim_word(s.drop_last())
    } else {
        s
    }
}

/// The input after the last word is deleted: what follows the last identifier
/// run goes, then the run itself.
pub open spec fn delete_last_word(s: Seq<char>) -> Seq<char> {
    trim_word(trim_non_word(s))
}

/// The effect of one key on a read-line input, and what the poll reports.
pub open spec fn read_line_step(input: Seq<char>, key: Key, clipboard: Seq<char>) -> (
    Seq<char>,
    ReadLinePoll,
) {
    match key {
        Key::Esc => (input, ReadLinePoll::Canceled),
        Key::Enter => (input, ReadLinePoll::Submitted),
        Key::Home => (seq![], ReadLinePoll::Pending),
        Key::Ctrl('u') => (seq![], ReadLinePoll::Pending),
        Key::Ctrl('w') => (delete_last_word(input), ReadLinePoll::Pending),
        Key::Backspace | Key::Ctrl('h') => (
            if input.len() > 0 {
                input.drop_last()
            } else {
                input
            },
            ReadLinePoll::Pending,
        ),
        Key::Ctrl('y') => (input + clipboard, ReadLinePoll::Pending),
        Key::Char(c) => (input.push(c), ReadLinePoll::Pending),
        _ => (input, ReadLinePoll::Pending),
    }
}

/// A one-line text input with its prompt.
pub struct ReadLine {
    pub prompt: String,
    pub input: String,
}

fn is_identifier_char_exec(c: char) -> (r: bool)
    ensures
        r == is_identifier_char(c),
{
    ('a' <= c && c <= 'z') || ('A' <= c && c <= 'Z') || ('0' <= c && c <= '9') || c == '_'
}

fn last_char(s: &String) -> (r: Option<char>)
    ensures
        s@.len() == 0 ==> r.is_none(),
        s@.len() > 0 ==> r == Some(s@.last()),
{
    let n = s.as_str().unicode_len();
    if n == 0 {
        None
    } else {
        Some(s.as_str().get_char(n - 1))
    }
}

impl ReadLine {
    pub fn new() -> (r: ReadLine)
        ensures
            r.prompt@.len() == 0 && r.input@.len() == 0,
    {
        ReadLine { prompt: String::new(), input: String::new() }
    }

    pub fn prompt(&self) -> (r: &str)
        ensures
            r@ == self.prompt@,
    {
        self.prompt.as_str()
    }

    pub fn set_prompt(&mut self, prompt: &str)
        ensures
            final(self).prompt@ == prompt@,
            final(self).input == old(self).input,
    {
        self.prompt = prompt.to_owned();
    }

    pub fn input(&self) -> (r: &str)
        ensures
            r@ == self.input@,
    {
        self.input.as_str()
    }

    pub fn input_mut(&mut self) -> (r: &mut String)
        ensures
            *r == old(self).input,
    {
        &mut self.input
    }

    /// Applies one key: editing keys change the input, `Enter` submits and
    /// `Esc` cancels. `clipboard` is what `Ctrl-y` pastes.
    pub fn poll(&mut self, key: Key, clipboard: &str) -> (r: ReadLinePoll)
        ensures
            (final(self).input@, r) == read_line_step(old(self).input@, key, clipboard@),
            final(self).prompt == old(self).prompt,
    {
        match key {
            Key::Esc => ReadLinePoll::Canceled,
            Key::Enter => ReadLinePoll::Submitted,
            Key::Home => {
                self.input = String::new();
                ReadLinePoll::Pending
            },
            Key::Ctrl(c) => {
                if c == 'u' {
                    self.input = String::new();
                } else if c == 'w' {
                    self.delete_last_word();
                } else if c == 'h' {
                    pop_char(&mut self.input);
                } else if c == 'y' {
                    self.input.append(clipboard);
                }
                ReadLinePoll::Pending
            },
            Key::Backspace => {
                pop_char(&mut self.input);
                ReadLinePoll::Pending
            },
            Key::Char(c) => {
                push_char(&mut self.input, c);
                ReadLinePoll::Pending
            },
            _ => ReadLinePoll::Pending,
        }
    }

    fn delete_last_word(&mut self)
        ensures
            final(self).input@ == delete_last_word(old(self).input@),
            final(self).prompt == old(self).prompt,
    {
        loop
            invariant
                trim_non_word(self.input@) == trim_non_word(old(self).input@),
                self.prompt == old(self).prompt,
            ensures
                self.input@ == trim_non_word(old(self).input@),
                self.prompt == old(self).prompt,
            decreases self.input@.len(),
        {
            match last_char(&self.input) {
                Some(c) => {
                    if is_identifier_char_exec(c) {
                        break ;
                    }
                    pop_char(&mut self.input);
                },
                None => {
                    break ;
                },
            }
        }
        loop
            invariant
                trim_word(self.input@) == delete_last_word(old(self).input@),
                self.prompt == old(self).prompt,
            ensures
                self.input@ == delete_last_word(old(self).input@),
                self.prompt == old(self).prompt,
            decreases self.input@.len(),
        {
            match last_char(&self.input) {
                Some(c) => {
                    if !is_identifier_char_exec(c) {
                        break ;
                    }
                    pop_char(&mut self.input);
                },
                None => {
                    break ;
                },
            }
        }
    }
}

#[derive(Debug, Clone, Copy, PartialEq, Eq, Structural)]
pub enum MessageKind {
    Info,
    Error,
}

/// The message line: a kind and a text.
pub struct StatusBar {
    pub kind: MessageKind,
    pub message: String,
}

/// Appends to a message.
pub struct EditorOutputWrite<'a>(pub &'a mut String);

impl<'a> EditorOutputWrite<'a> {
    pub fn str(&mut self, message: &str)
        ensures
            final(self).0@ == old(self).0@ + message@,
    {
        self.0.append(message);
    }
}

impl StatusBar {
    pub fn new() -> (r: StatusBar)
        ensures
            r.kind == MessageKind::Info && r.message@.len() == 0,
    {
        StatusBar { kind: MessageKind::Info, message: String::new() }
    }

    pub fn message(&self) -> (r: (MessageKind, &str))
        ensures
            r.0 == self.kind && r.1@ == self.message@,
    {
        (self.kind, self.message.as_str())
    }

    pub fn clear(&mut self)
        ensures
            final(self).message@.len() == 0,
            final(self).kind == old(self).kind,
    {
        self.message = String::new();
    }

    /// Starts a new message of `kind`; the writer appends its text.
    pub fn write(&mut self, kind: MessageKind) -> (r: EditorOutputWrite<'_>)
        ensures
            final(self).kind == kind,
            (*r.0)@.len() == 0,
            final(self).message == *final(r.0),
    {
        self.kind = kind;
        self.message = String::new();
        EditorOutputWrite(&mut self.message)
    }
}

/// Spare strings, handed out again instead of allocating.
pub struct StringPool {
    pub pool: Vec<String>,
}

impl StringPool {
    pub fn new() -> (r: StringPool)
        ensures
            r.pool@.len() == 0,
    {
        StringPool { pool: Vec::new() }
    }

    /// An empty string.
    pub fn acquire(&mut self) -> (r: String)
        requires
            forall|i: int| 0 <= i < old(self).pool@.len() ==> old(self).pool@[i]@.len() == 0,
        ensures
            r@.len() == 0,
            forall|i: int| 0 <= i < final(self).pool@.len() ==> final(self).pool@[i]@.len() == 0,
            old(self).pool@.len() > 0 ==> final(self).pool@ == old(self).pool@.drop_last(),
            old(self).pool@.len() == 0 ==> final(self).pool@.len() == 0,
    {
        match self.pool.pop() {
            Some(s) => s,
            None => String::new(),
        }
    }

    /// A string holding `value`.
    pub fn acquire_with(&mut self, value: &str) -> (r: String)
        requires
            forall|i: int| 0 <= i < old(self).pool@.len() ==> old(self).pool@[i]@.len() == 0,
        ensures
            r@ == value@,
            forall|i: int| 0 <= i < final(self).pool@.len() ==> final(self).pool@[i]@.len() == 0,
            old(self).pool@.len() > 0 ==> final(self).pool@ == old(self).pool@.drop_last(),
            old(self).pool@.len() == 0 ==> final(self).pool@.len() == 0,
    {
        match self.pool.pop() {
            Some(s) => {
                let mut s = s;
                s.append(value);
                assert(s@ =~= value@);
                s
            },
            None => value.to_owned(),
        }
    }

    /// Takes `s` back, emptied.
    pub fn release(&mut self, s: String)
        requires
            forall|i: int| 0 <= i < old(self).pool@.len() ==> old(self).pool@[i]@.len() == 0,
        ensures
            final(self).pool@.len() == old(self).pool@.len() + 1,
            forall|i: int| 0 <= i < final(self).pool@.len() ==> final(self).pool@[i]@.len() == 0,
    {
        let mut s = s;
        clear_string(&mut s);
        self.pool.push(s);
    }
}

} // verus!

verus! {

/// The decimal digits of `n`.
pub open spec fn decimal(n: nat) -> Seq<char>
    decreases n,
{
    if n < 10 {
        seq![crate::client_event::digit_char(n as int)]
    } else {
        decimal(n / 10) + seq![crate::client_event::digit_char((n % 10) as int)]
    }
}

/// Appends the decimal digits of `n`.
pub fn push_decimal(s: &mut String, n: usize)
    ensures
        final(s)@ == old(s)@ + decimal(n as nat),
    decreases n,
{
    if n >= 10 {
        push_decimal(s, n / 10);
    }
    push_char(s, crate::client_event::digit((n % 10) as u8));
    proof {
        if n >= 10 {
            assert(final(s)@ =~= old(s)@ + decimal(n as nat));
        } else {
            assert(final(s)@ =~= old(s)@ + decimal(n as nat));
        }
    }
}

} // verus!
