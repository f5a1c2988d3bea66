use vstd::prelude::*;
use vstd::string::StringSliceAdditionalSpecFns;

use crate::buffer_position::BufferPosition;

verus! {

#[derive(Debug, Clone, Copy, PartialEq, Eq, Structural)]
pub enum CommandTokenKind {
    Literal,
    QuotedLiteral,
    Flag,
    Equals,
    Binding,
    OpenCurlyBrackets,
    CloseCurlyBrackets,
    OpenParenthesis,
    CloseParenthesis,
    EndOfLine,
    EndOfSource,
}

#[derive(Debug, Clone, Copy, PartialEq, Eq, Structural)]
pub enum CommandErrorKind {
    UnterminatedQuotedLiteral,
    InvalidFlagName,
    InvalidBindingName,
    AstTooLong,
    TooManyMacroCommands,
    TooManyLiterals,
    LiteralTooLong,
    ExpectedToken(CommandTokenKind),
    ExpectedMacroDefinition,
    ExpectedStatement,
    ExpectedExpression,
    InvalidMacroName,
    InvalidLiteralEscaping,
    TooManyParameters,
    TooManyBindings,
    UndeclaredBinding,
    NoSuchCommand,
    NoSuchFlag,
    WrongNumberOfArgs,
    TooManyFlags,
    CouldNotSourceFile,
    CommandAlreadyExists,
    CommandDoesNotAcceptBang,
    TooFewArguments,
    TooManyArguments,
    Aborted,
}

/// Index into the table of source paths; 0 stands for no named source.
#[derive(Debug, Clone, Copy, PartialEq, Eq, Structural)]
pub struct SourcePathHandle(pub u32);

#[derive(Debug, Clone, Copy, PartialEq, Eq, Structural)]
pub struct CommandError {
    pub kind: CommandErrorKind,
    pub source: SourcePathHandle,
    pub position: BufferPosition,
}

#[derive(Debug, Clone, Copy, PartialEq, Eq, Structural)]
pub struct CommandToken {
    pub kind: CommandTokenKind,
    pub start: u32,
    pub end: u32,
    pub position: BufferPosition,
}

impl CommandToken {
    pub fn range(&self) -> (r: std::ops::Range<usize>)
        ensures
            r.start == self.start as usize,
            r.end == self.end as usize,
    {
        std::ops::Range { start: self.start as usize, end: self.end as usize }
    }
}

pub open spec fn is_blank(c: u8) -> bool {
    c == 0x20 || c == 0x09 || c == 0x0d
}

pub open spec fn is_identifier_byte(c: u8) -> bool {
    (0x61 <= c <= 0x7a) || (0x41 <= c <= 0x5a) || (0x30 <= c <= 0x39) || c == 0x5f || c == 0x2d
}

/// Bytes that end a plain literal.
pub open spec fn ends_literal(c: u8) -> bool {
    c == 0x7b || c == 0x7d || c == 0x28 || c == 0x29 || is_blank(c) || c == 0x0a
}

/// The first index at or after `i` that is not a blank (or the end).
pub open spec fn skip_blanks(b: Seq<u8>, i: int) -> int
    decreases b.len() - i,
{
    if 0 <= i < b.len() && is_blank(b[i]) {
        skip_blanks(b, i + 1)
    } else {
        i
    }
}

pub open spec fn identifier_end(b: Seq<u8>, i: int) -> int
    decreases b.len() - i,
{
    if 0 <= i < b.len() && is_identifier_byte(b[i]) {
        identifier_end(b, i + 1)
    } else {
        i
    }
}

pub open spec fn literal_end(b: Seq<u8>, i: int) -> int
    decreases b.len() - i,
{
    if 0 <= i < b.len() && !ends_literal(b[i]) {
        literal_end(b, i + 1)
    } else {
        i
    }
}

/// The end of a run of line breaks mixed with blanks.
pub open spec fn line_break_end(b: Seq<u8>, i: int) -> int
    decreases b.len() - i,
{
    if 0 <= i < b.len() && (is_blank(b[i]) || b[i] == 0x0a) {
        line_break_end(b, i + 1)
    } else {
        i
    }
}

/// The index just past the closing `delim` of a quoted literal whose body starts
/// at `i`, a backslash taking the byte after it along; `None` when unterminated.
pub open spec fn quote_end(b: Seq<u8>, i: int, delim: u8) -> Option<int>
    decreases b.len() + 1 - i,
{
    if i < 0 || i >= b.len() {
        None
    } else if b[i] == 0x5c {
        quote_end(b, i + 2, delim)
    } else if b[i] == delim {
        Some(i + 1)
    } else {
        quote_end(b, i + 1, delim)
    }
}

/// The token that starts at `i` (where no blank stands): its kind and end, or
/// the error it raises.
pub open spec fn scan_token(b: Seq<u8>, i: int) -> Result<(CommandTokenKind, int), CommandErrorKind> {
    if i >= b.len() {
        Ok((CommandTokenKind::EndOfSource, b.len() as int))
    } else {
        let c = b[i];
        if c == 0x0a {
            Ok((CommandTokenKind::EndOfLine, line_break_end(b, i + 1)))
        } else if c == 0x22 || c == 0x27 {
            match quote_end(b, i + 1, c) {
                Some(e) => Ok((CommandTokenKind::QuotedLiteral, e)),
                None => Err(CommandErrorKind::UnterminatedQuotedLiteral),
            }
        } else if c == 0x2d {
            let e = identifier_end(b, i + 1);
            if e == i + 1 {
                Err(CommandErrorKind::InvalidFlagName)
            } else {
                Ok((CommandTokenKind::Flag, e))
            }
        } else if c == 0x24 {
            let e = identifier_end(b, i + 1);
            if e == i + 1 {
                Err(CommandErrorKind::InvalidBindingName)
            } else {
                Ok((CommandTokenKind::Binding, e))
            }
        } else if c == 0x3d {
            Ok((CommandTokenKind::Equals, i + 1))
        } else if c == 0x7b {
            Ok((CommandTokenKind::OpenCurlyBrackets, i + 1))
        } else if c == 0x7d {
            Ok((CommandTokenKind::CloseCurlyBrackets, i + 1))
        } else if c == 0x28 {
            Ok((CommandTokenKind::OpenParenthesis, i + 1))
        } else if c == 0x29 {
            Ok((CommandTokenKind::CloseParenthesis, i + 1))
        } else {
            Ok((CommandTokenKind::Literal, literal_end(b, i + 1)))
        }
    }
}

/// Line and byte column of index `i`: the line breaks before it, and the bytes
/// since the last of them.
pub open spec fn line_of(b: Seq<u8>, i: int) -> int
    decreases i,
{
    if i <= 0 {
        0
    } else if b[i - 1] == 0x0a {
        line_of(b, i - 1) + 1
    } else {
        line_of(b, i - 1)
    }
}

pub open spec fn column_of(b: Seq<u8>, i: int) -> int
    decreases i,
{
    if i <= 0 {
        0
    } else if b[i - 1] == 0x0a {
        0
    } else {
        column_of(b, i - 1) + 1
    }
}

pub open spec fn position_of(b: Seq<u8>, i: int) -> BufferPosition {
    BufferPosition { line_index: line_of(b, i) as u32, column_byte_index: column_of(b, i) as u32 }
}

proof fn lemma_position_bounded(b: Seq<u8>, i: int)
    requires
        0 <= i,
    ensures
        0 <= line_of(b, i) <= i,
        0 <= column_of(b, i) <= i,
    decreases i,
{
    if i > 0 {
        lemma_position_bounded(b, i - 1);
    }
}

fn skip_blanks_exec(b: &[u8], i: usize) -> (r: usize)
    requires
        i <= b@.len(),
    ensures
        r as int == skip_blanks(b@, i as int),
        i <= r <= b@.len(),
{
    let mut j = i;
    while j < b.len() && (b[j] == 0x20 || b[j] == 0x09 || b[j] == 0x0d)
        invariant
            i <= j <= b@.len(),
            skip_blanks(b@, i as int) == skip_blanks(b@, j as int),
        decreases b@.len() - j,
    {
        j += 1;
    }
    j
}

fn identifier_end_exec(b: &[u8], i: usize) -> (r: usize)
    requires
        i <= b@.len(),
    ensures
        r as int == identifier_end(b@, i as int),
        i <= r <= b@.len(),
{
    let mut j = i;
    while j < b.len() && ((0x61 <= b[j] && b[j] <= 0x7a) || (0x41 <= b[j] && b[j] <= 0x5a) || (0x30
        <= b[j] && b[j] <= 0x39) || b[j] == 0x5f || b[j] == 0x2d)
        invariant
            i <= j <= b@.len(),
            identifier_end(b@, i as int) == identifier_end(b@, j as int),
        decreases b@.len() - j,
    {
        j += 1;
    }
    j
}

fn literal_end_exec(b: &[u8], i: usize) -> (r: usize)
    requires
        i <= b@.len(),
    ensures
        r as int == literal_end(b@, i as int),
        i <= r <= b@.len(),
{
    let mut j = i;
    while j < b.len() && !(b[j] == 0x7b || b[j] == 0x7d || b[j] == 0x28 || b[j] == 0x29 || b[j]
        == 0x20 || b[j] == 0x09 || b[j] == 0x0d || b[j] == 0x0a)
        invariant
            i <= j <= b@.len(),
            literal_end(b@, i as int) == literal_end(b@, j as int),
        decreases b@.len() - j,
    {
        j += 1;
    }
    j
}

fn line_break_end_exec(b: &[u8], i: usize) -> (r: usize)
    requires
        i <= b@.len(),
    ensures
        r as int == line_break_end(b@, i as int),
        i <= r <= b@.len(),
{
    let mut j = i;
    while j < b.len() && (b[j] == 0x20 || b[j] == 0x09 || b[j] == 0x0d || b[j] == 0x0a)
        invariant
            i <= j <= b@.len(),
            line_break_end(b@, i as int) == line_break_end(b@, j as int),
        decreases b@.len() - j,
    {
        j += 1;
    }
    j
}

fn quote_end_exec(b: &[u8], i: usize, delim: u8) -> (r: Option<usize>)
    requires
        i <= b@.len(),
        b@.len() < usize::MAX,
    ensures
        match quote_end(b@, i as int, delim) {
            Some(e) => r == Some(e as usize) && i < e <= b@.len(),
            None => r.is_none(),
        },
{
    let mut j = i;
    proof {
        lemma_quote_end_bounds(b@, i as int, delim);
    }
    while j < b.len()
        invariant
            i <= j <= b@.len() + 1,
            b@.len() < usize::MAX,
            quote_end(b@, i as int, delim) == quote_end(b@, j as int, delim),
            forall|e: int| quote_end(b@, j as int, delim) == Some(e) ==> j < e <= b@.len(),
        decreases b@.len() + 1 - j,
    {
        proof {
            lemma_quote_end_bounds(b@, j as int + 1, delim);
            lemma_quote_end_bounds(b@, j as int + 2, delim);
        }
        if b[j] == 0x5c {
            j += 2;
        } else if b[j] == delim {
            return Some(j + 1);
        } else {
            j += 1;
        }
    }
    None
}

proof fn lemma_quote_end_bounds(b: Seq<u8>, i: int, delim: u8)
    ensures
        forall|e: int| quote_end(b, i, delim) == Some(e) ==> i < e <= b.len(),
    decreases b.len() + 1 - i,
{
    if 0 <= i < b.len() {
        if b[i] == 0x5c {
            lemma_quote_end_bounds(b, i + 2, delim);
        } else if b[i] != delim {
            lemma_quote_end_bounds(b, i + 1, delim);
        }
    }
}

/// The position at `to`, from the position at `from`.
fn advance(b: &[u8], from: usize, to: usize, position: BufferPosition) -> (r: BufferPosition)
    requires
        from <= to <= b@.len() <= u32::MAX,
        position == position_of(b@, from as int),
    ensures
        r == position_of(b@, to as int),
{
    let mut p = position;
    let mut j = from;
    while j < to
        invariant
            from <= j <= to <= b@.len() <= u32::MAX,
            p == position_of(b@, j as int),
        decreases to - j,
    {
        proof {
            lemma_position_bounded(b@, j as int);
            lemma_position_bounded(b@, j as int + 1);
        }
        if b[j] == 0x0a {
            p = BufferPosition { line_index: p.line_index + 1, column_byte_index: 0 };
        } else {
            p = BufferPosition { line_index: p.line_index, column_byte_index: p.column_byte_index + 1 };
        }
        j += 1;
    }
    p
}

pub struct CommandTokenizer<'a> {
    pub source: &'a str,
    pub index: usize,
    pub position: BufferPosition,
}

impl<'a> CommandTokenizer<'a> {
    pub open spec fn bytes(&self) -> Seq<u8> {
        self.source.spec_bytes()
    }

    pub open spec fn wf(&self) -> bool {
        &&& self.bytes().len() < u32::MAX
        &&& self.index <= self.bytes().len()
        &&& self.position == position_of(self.bytes(), self.index as int)
    }

    pub fn new(source: &'a str) -> (r: Self)
        requires
            source.spec_bytes().len() < u32::MAX,
        ensures
            r.wf(),
            r.source == source,
            r.index == 0,
    {
        CommandTokenizer { source, index: 0, position: BufferPosition::zero() }
    }

    /// Reads the next token. Blanks before it are skipped; past the end of the
    /// source every call gives `EndOfSource`.
    pub fn next(&mut self) -> (r: Result<CommandToken, CommandError>)
        requires
            old(self).wf(),
        ensures
            final(self).wf(),
            final(self).source == old(self).source,
            ({
                let b = old(self).bytes();
                let start = skip_blanks(b, old(self).index as int);
                match scan_token(b, start) {
                    Ok((kind, end)) => r == Ok::<CommandToken, CommandError>(
                        CommandToken {
                            kind,
                            start: start as u32,
                            end: end as u32,
                            position: position_of(b, start),
                        },
                    ) && final(self).index == end,
                    Err(kind) => r == Err::<CommandToken, CommandError>(
                        CommandError {
                            kind,
                            source: SourcePathHandle(0),
                            position: position_of(b, start),
                        },
                    ),
                }
            }),
    {
        let b = self.source.as_bytes();
        let start = skip_blanks_exec(b, self.index);
        let position = advance(b, self.index, start, self.position);
        let len = b.len();
        if start >= len {
            self.index = len;
            self.position = position;
            return Ok(
                CommandToken {
                    kind: CommandTokenKind::EndOfSource,
                    start: len as u32,
                    end: len as u32,
                    position,
                },
            );
        }
        let c = b[start];
        let scanned: Result<(CommandTokenKind, usize), CommandErrorKind> = if c == 0x0a {
            Ok((CommandTokenKind::EndOfLine, line_break_end_exec(b, start + 1)))
        } else if c == 0x22 || c == 0x27 {
            match quote_end_exec(b, start + 1, c) {
                Some(e) => Ok((CommandTokenKind::QuotedLiteral, e)),
                None => Err(CommandErrorKind::UnterminatedQuotedLiteral),
            }
        } else if c == 0x2d {
            let e = identifier_end_exec(b, start + 1);
            if e == start + 1 {
                Err(CommandErrorKind::InvalidFlagName)
            } else {
                Ok((CommandTokenKind::Flag, e))
            }
        } else if c == 0x24 {
            let e = identifier_end_exec(b, start + 1);
            if e == start + 1 {
                Err(CommandErrorKind::InvalidBindingName)
            } else {
                Ok((CommandTokenKind::Binding, e))
            }
        } else if c == 0x3d {
            Ok((CommandTokenKind::Equals, start + 1))
        } else if c == 0x7b {
            Ok((CommandTokenKind::OpenCurlyBrackets, start + 1))
        } else if c == 0x7d {
            Ok((CommandTokenKind::CloseCurlyBrackets, start + 1))
        } else if c == 0x28 {
            Ok((CommandTokenKind::OpenParenthesis, start + 1))
        } else if c == 0x29 {
            Ok((CommandTokenKind::CloseParenthesis, start + 1))
        } else {
            Ok((CommandTokenKind::Literal, literal_end_exec(b, start + 1)))
        };
        match scanned {
            Ok((kind, end)) => {
                self.index = end;
                self.position = advance(b, start, end, position);
                Ok(CommandToken { kind, start: start as u32, end: end as u32, position })
            },
            Err(kind) => Err(CommandError { kind, source: SourcePathHandle(0), position }),
        }
    }
}

} // verus!

verus! {

/// Everything that skipping blanks passes over is a blank.
pub proof fn lemma_skip_blanks(b: Seq<u8>, i: int)
    requires
        0 <= i <= b.len(),
    ensures
        i <= skip_blanks(b, i) <= b.len(),
        forall|m: int| i <= m < skip_blanks(b, i) ==> is_blank(b[m]),
    decreases b.len() - i,
{
    if i < b.len() && is_blank(b[i]) {
        lemma_skip_blanks(b, i + 1);
    }
}

/// A token that is not the end of the source takes at least one byte.
pub proof fn lemma_scan_advances(b: Seq<u8>, i: int)
    requires
        0 <= i < b.len(),
    ensures
        forall|k: CommandTokenKind, e: int| scan_token(b, i) == Ok::<(CommandTokenKind, int), CommandErrorKind>((k, e))
            ==> i < e <= b.len() && k != CommandTokenKind::EndOfSource,
{
    lemma_bounded_scans(b, i + 1);
    lemma_quote_end_bounds(b, i + 1, b[i]);
}

proof fn lemma_bounded_scans(b: Seq<u8>, i: int)
    requires
        0 <= i <= b.len(),
    ensures
        i <= identifier_end(b, i) <= b.len(),
        i <= literal_end(b, i) <= b.len(),
        i <= line_break_end(b, i) <= b.len(),
    decreases b.len() - i,
{
    if i < b.len() {
        lemma_bounded_scans(b, i + 1);
    }
}

/// Where the token before token `k` ends (0 for the first one).
pub open spec fn previous_end(tokens: Seq<CommandToken>, k: int) -> int {
    if k == 0 {
        0
    } else {
        tokens[k - 1].end as int
    }
}

/// The tokens of `source`, up to and including `EndOfSource`. They stand in
/// order, each right after the previous one but for blanks in between, and the
/// last one ends the source: their ranges, joined, give the source back with
/// only the blanks between tokens left out.
pub fn tokenize(source: &str) -> (r: Result<Vec<CommandToken>, CommandError>)
    requires
        source.spec_bytes().len() < u32::MAX,
    ensures
        match r {
            Ok(tokens) => {
                let b = source.spec_bytes();
                let n = tokens@.len();
                &&& n >= 1
                &&& tokens@[n - 1].kind == CommandTokenKind::EndOfSource
                &&& tokens@[n - 1].start == b.len() && tokens@[n - 1].end == b.len()
                &&& forall|k: int|
                    0 <= k < n ==> {
                        &&& previous_end(tokens@, k) <= tokens@[k].start <= tokens@[k].end <= b.len()
                        &&& (forall|m: int|
                            previous_end(tokens@, k) <= m < tokens@[k].start ==> is_blank(b[m]))
                        &&& scan_token(b, tokens@[k].start as int) == Ok::<
                            (CommandTokenKind, int),
                            CommandErrorKind,
                        >((tokens@[k].kind, tokens@[k].end as int))
                        &&& tokens@[k].position == position_of(b, tokens@[k].start as int)
                        &&& (k < n - 1 ==> tokens@[k].kind != CommandTokenKind::EndOfSource)
                    }
            },
            Err(e) => e.source == SourcePathHandle(0),
        },
{
    let mut tokenizer = CommandTokenizer::new(source);
    let mut tokens: Vec<CommandToken> = Vec::new();
    loop
        invariant
            tokenizer.wf(),
            tokenizer.source == source,
            tokens@.len() == 0 ==> tokenizer.index == 0,
            tokens@.len() > 0 ==> tokenizer.index == tokens@[tokens@.len() - 1].end,
            forall|k: int|
                0 <= k < tokens@.len() ==> {
                    &&& previous_end(tokens@, k) <= tokens@[k].start <= tokens@[k].end
                        <= source.spec_bytes().len()
                    &&& (forall|m: int|
                        previous_end(tokens@, k) <= m < tokens@[k].start ==> is_blank(
                            source.spec_bytes()[m],
                        ))
                    &&& scan_token(source.spec_bytes(), tokens@[k].start as int) == Ok::<
                        (CommandTokenKind, int),
                        CommandErrorKind,
                    >((tokens@[k].kind, tokens@[k].end as int))
                    &&& tokens@[k].position == position_of(
                        source.spec_bytes(),
                        tokens@[k].start as int,
                    )
                    &&& tokens@[k].kind != CommandTokenKind::EndOfSource
                },
        decreases source.spec_bytes().len() - tokenizer.index,
    {
        let ghost b = source.spec_bytes();
        let ghost before = tokenizer.index as int;
        proof {
            lemma_skip_blanks(b, before);
            let start = skip_blanks(b, before);
            if start < b.len() {
                lemma_scan_advances(b, start);
            }
        }
        let token = tokenizer.next()?;
        let ghost old_tokens = tokens@;
        tokens.push(token);
        proof {
            assert(previous_end(tokens@, tokens@.len() - 1) == before);
            assert forall|k: int| 0 <= k < old_tokens.len() implies previous_end(tokens@, k)
                == previous_end(old_tokens, k) by {}
        }
        if token.kind == CommandTokenKind::EndOfSource {
            return Ok(tokens);
        }
    }
}

} // verus!

verus! {

/// A quoted literal holds at least its two quotes.
pub proof fn lemma_quoted_len(b: Seq<u8>, i: int)
    requires
        0 <= i < b.len(),
    ensures
        forall|e: int| scan_token(b, i) == Ok::<(CommandTokenKind, int), CommandErrorKind>((CommandTokenKind::QuotedLiteral, e))
            ==> i + 2 <= e,
{
    lemma_quote_end_bounds(b, i + 1, b[i]);
}

} // verus!
