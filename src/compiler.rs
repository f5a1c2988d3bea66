use vstd::prelude::*;
use vstd::string::StringSliceAdditionalSpecFns;

use crate::buffer_position::BufferPosition;
use crate::bytecode::{
    lookup, find_command, CommandCollection, CommandSource, MacroCommand, Op, SourceLocation,
    VirtualMachine,
};
use crate::command::{
    CommandError, CommandErrorKind, CommandToken, CommandTokenKind, CommandTokenizer,
    SourcePathHandle,
};
use crate::editor_utils::hash_bytes;

verus! {

/// The compiler read one more token: the previous token becomes the token
/// scanned after the blanks, or its error comes back.
pub open spec fn advanced(old: &Compiler, new: &Compiler, r: Result<(), CommandError>) -> bool {
    let b = old.bytes();
    let start = crate::command::skip_blanks(b, old.tokenizer.index as int);
    match crate::command::scan_token(b, start) {
        Ok((kind, end)) => r.is_ok() && new.previous_token == (CommandToken {
            kind,
            start: start as u32,
            end: end as u32,
            position: crate::command::position_of(b, start),
        }) && new.tokenizer.index == end,
        Err(kind) => r == Err::<(), CommandError>(
            CommandError { kind, source: old.source, position: crate::command::position_of(b, start) },
        ),
    }
}

/// `a` is `b` with zero or more items added at the end.
pub open spec fn extends<T>(a: Seq<T>, b: Seq<T>) -> bool {
    &&& b.len() <= a.len()
    &&& forall|i: int| 0 <= i < b.len() ==> #[trigger] a[i] == b[i]
}

/// What the compiler may do to the machine: add ops, locations and texts.
pub open spec fn vm_grew(new: &VirtualMachine, old: &VirtualMachine) -> bool {
    &&& extends(new.ops@, old.ops@)
    &&& extends(new.op_locations@, old.op_locations@)
    &&& extends(new.texts@, old.texts@)
    &&& new.value_stack == old.value_stack
}

/// Single-pass compiler state: the token stream with one token of lookahead,
/// the bindings in scope, and the top-level code, which is kept apart until
/// every macro body has been emitted.
pub struct Compiler<'a> {
    pub tokenizer: CommandTokenizer<'a>,
    pub source: SourcePathHandle,
    pub previous_token: CommandToken,
    pub bindings: Vec<u64>,
    pub scope_start: usize,
    pub in_macro: bool,
    pub top_ops: Vec<Op>,
    pub top_locations: Vec<SourceLocation>,
    pub top_texts: Vec<u8>,
}

impl<'a> Compiler<'a> {
    pub open spec fn bytes(&self) -> Seq<u8> {
        self.tokenizer.bytes()
    }

    pub open spec fn parser_wf(&self) -> bool {
        let b = self.bytes();
        let t = self.previous_token;
        &&& self.tokenizer.wf()
        &&& t.start <= t.end <= b.len()
        &&& t.kind == CommandTokenKind::EndOfSource ==> (self.tokenizer.index == b.len()
            || self.tokenizer.index == 0)
        &&& t.kind != CommandTokenKind::EndOfSource ==> (self.tokenizer.index == t.end && t.start
            < t.end)
        &&& t.kind == CommandTokenKind::QuotedLiteral ==> t.start + 2 <= t.end
    }

    pub open spec fn wf(&self, vm: &VirtualMachine) -> bool {
        &&& self.parser_wf()
        &&& self.scope_start <= self.bindings@.len() <= self.scope_start + 255
        &&& self.top_ops@.len() == self.top_locations@.len()
        &&& vm.ops@.len() == vm.op_locations@.len()
    }

    /// Decreases with every token read past the first.
    pub open spec fn remaining(&self) -> int {
        self.bytes().len() - self.tokenizer.index + if self.previous_token.kind
            == CommandTokenKind::EndOfSource {
            0int
        } else {
            1int
        }
    }

    pub open spec fn stable(&self, other: &Compiler<'a>) -> bool {
        &&& other.tokenizer.source == self.tokenizer.source
        &&& other.source == self.source
        &&& other.in_macro == self.in_macro
        &&& other.scope_start == self.scope_start
    }

    pub fn new(source: &'a str, source_handle: SourcePathHandle) -> (r: Compiler<'a>)
        requires
            source.spec_bytes().len() < u32::MAX,
        ensures
            r.parser_wf(),
            r.tokenizer.source == source,
            r.source == source_handle,
            r.tokenizer.index == 0,
            !r.in_macro,
            r.scope_start == 0,
            r.bindings@.len() == 0,
            r.top_ops@.len() == 0 && r.top_locations@.len() == 0 && r.top_texts@.len() == 0,
    {
        Compiler {
            tokenizer: CommandTokenizer::new(source),
            source: source_handle,
            previous_token: CommandToken {
                kind: CommandTokenKind::EndOfSource,
                start: 0,
                end: 0,
                position: BufferPosition::zero(),
            },
            bindings: Vec::new(),
            scope_start: 0,
            in_macro: false,
            top_ops: Vec::new(),
            top_locations: Vec::new(),
            top_texts: Vec::new(),
        }
    }

    fn error(&self, kind: CommandErrorKind, position: BufferPosition) -> (r: CommandError)
        ensures
            r.kind == kind && r.source == self.source && r.position == position,
    {
        CommandError { kind, source: self.source, position }
    }

    pub fn next_token(&mut self) -> (r: Result<(), CommandError>)
        requires
            old(self).parser_wf(),
        ensures
            final(self).stable(old(self)),
            final(self).bindings == old(self).bindings,
            final(self).top_ops == old(self).top_ops,
            final(self).top_locations == old(self).top_locations,
            final(self).top_texts == old(self).top_texts,
            r.is_ok() ==> final(self).parser_wf(),
            r.is_ok() ==> final(self).remaining() <= old(self).remaining(),
            r.is_ok() && old(self).previous_token.kind != CommandTokenKind::EndOfSource
                ==> final(self).remaining() < old(self).remaining(),
            advanced(old(self), final(self), r),
    {
        proof {
            let b = self.bytes();
            let i = self.tokenizer.index as int;
            crate::command::lemma_skip_blanks(b, i);
            let start = crate::command::skip_blanks(b, i);
            if start < b.len() {
                crate::command::lemma_scan_advances(b, start);
                crate::command::lemma_quoted_len(b, start);
            }
        }
        match self.tokenizer.next() {
            Ok(token) => {
                self.previous_token = token;
                Ok(())
            },
            Err(error) => Err(CommandError { kind: error.kind, source: self.source, position: error.position }),
        }
    }

    pub fn consume_token(&mut self, kind: CommandTokenKind) -> (r: Result<(), CommandError>)
        requires
            old(self).parser_wf(),
        ensures
            final(self).stable(old(self)),
            final(self).bindings == old(self).bindings,
            final(self).top_ops == old(self).top_ops,
            final(self).top_locations == old(self).top_locations,
            final(self).top_texts == old(self).top_texts,
            r.is_ok() ==> final(self).parser_wf(),
            r.is_ok() ==> old(self).previous_token.kind == kind,
            r.is_ok() ==> final(self).remaining() <= old(self).remaining(),
            r.is_ok() && kind != CommandTokenKind::EndOfSource ==> final(self).remaining() < old(
                self,
            ).remaining(),
            old(self).previous_token.kind == kind ==> advanced(old(self), final(self), r),
            old(self).previous_token.kind != kind ==> r == Err::<(), CommandError>(
                CommandError {
                    kind: CommandErrorKind::ExpectedToken(kind),
                    source: old(self).source,
                    position: old(self).previous_token.position,
                },
            ) && *final(self) == *old(self),
    {
        if self.previous_token.kind == kind {
            self.next_token()
        } else {
            Err(self.error(CommandErrorKind::ExpectedToken(kind), self.previous_token.position))
        }
    }

    /// Whether the previous token's text is `word`.
    fn previous_token_is(&self, word: &[u8]) -> (r: bool)
        requires
            self.parser_wf(),
        ensures
            r == (self.bytes().subrange(
                self.previous_token.start as int,
                self.previous_token.end as int,
            ) == word@),
    {
        let b = self.tokenizer.source.as_bytes();
        let start = self.previous_token.start as usize;
        let end = self.previous_token.end as usize;
        if end - start != word.len() {
            assert(b@.subrange(start as int, end as int).len() != word@.len());
            return false;
        }
        let mut i: usize = 0;
        while i < word.len()
            invariant
                i <= word@.len(),
                start + word@.len() == end <= b@.len(),
                start == self.previous_token.start,
                end == self.previous_token.end,
                b@ == self.bytes(),
                forall|j: int| 0 <= j < i ==> b@[start + j] == word@[j],
            decreases word@.len() - i,
        {
            if b[start + i] != word[i] {
                assert(b@.subrange(start as int, end as int)[i as int] != word@[i as int]);
                assert(b@.subrange(start as int, end as int) != word@);
                return false;
            }
            i += 1;
        }
        assert(b@.subrange(start as int, end as int) =~= word@);
        true
    }

    /// The source text of the previous token.
    pub fn previous_token_str(&self) -> (r: &'a str)
        requires
            self.parser_wf(),
        ensures
            vstd::utf8::valid_utf8(self.bytes().subrange(self.previous_token.start as int, self.previous_token.end as int))
                ==> r.spec_bytes() == self.bytes().subrange(self.previous_token.start as int, self.previous_token.end as int),
    {
        let b = self.tokenizer.source.as_bytes();
        match crate::text::str_from_utf8(vstd::slice::slice_subrange(
            b,
            self.previous_token.start as usize,
            self.previous_token.end as usize,
        )) {
            Some(text) => text,
            None => "",
        }
    }

    fn previous_token_hash(&self) -> (r: u64)
        requires
            self.parser_wf(),
        ensures
            r == crate::editor_utils::fnv1a(
                self.bytes().subrange(self.previous_token.start as int, self.previous_token.end as int),
            ),
    {
        let b = self.tokenizer.source.as_bytes();
        hash_bytes(vstd::slice::slice_subrange(
            b,
            self.previous_token.start as usize,
            self.previous_token.end as usize,
        ))
    }

    pub fn declare_binding_from_previous_token(&mut self) -> (r: Result<(), CommandError>)
        requires
            old(self).scope_start <= old(self).bindings@.len() <= old(self).scope_start + 255,
            old(self).parser_wf(),
        ensures
            final(self).stable(old(self)),
            final(self).previous_token == old(self).previous_token,
            final(self).tokenizer == old(self).tokenizer,
            final(self).top_ops == old(self).top_ops,
            final(self).top_locations == old(self).top_locations,
            final(self).top_texts == old(self).top_texts,
            final(self).scope_start <= final(self).bindings@.len() <= final(self).scope_start
                + 255,
            r.is_ok() <==> old(self).bindings@.len() < old(self).scope_start + 255,
            r.is_ok() ==> final(self).bindings@ == old(self).bindings@.push(
                crate::editor_utils::fnv1a(
                    old(self).bytes().subrange(
                        old(self).previous_token.start as int,
                        old(self).previous_token.end as int,
                    ),
                ),
            ),
            r.is_err() ==> final(self).bindings == old(self).bindings && r == Err::<(), CommandError>(
                CommandError {
                    kind: CommandErrorKind::TooManyBindings,
                    source: old(self).source,
                    position: old(self).previous_token.position,
                },
            ),
    {
        if self.bindings.len() - self.scope_start < 255 {
            let name_hash = self.previous_token_hash();
            self.bindings.push(name_hash);
            Ok(())
        } else {
            Err(self.error(CommandErrorKind::TooManyBindings, self.previous_token.position))
        }
    }

    /// The stack slot, counted from the frame's base, of the innermost binding
    /// in scope named like the previous token.
    pub fn find_binding_stack_index_from_previous_token(&self) -> (r: Option<u8>)
        requires
            self.parser_wf(),
            self.scope_start <= self.bindings@.len() <= self.scope_start + 255,
        ensures
            ({
                let h = crate::editor_utils::fnv1a(
                    self.bytes().subrange(
                        self.previous_token.start as int,
                        self.previous_token.end as int,
                    ),
                );
                match r {
                    Some(i) => {
                        let k = self.scope_start as int + i as int;
                        &&& k < self.bindings@.len()
                        &&& self.bindings@[k] == h
                        &&& forall|j: int| k < j < self.bindings@.len() ==> self.bindings@[j] != h
                    },
                    None => forall|j: int|
                        self.scope_start <= j < self.bindings@.len() ==> self.bindings@[j] != h,
                }
            }),
    {
        let name_hash = self.previous_token_hash();
        let mut i = self.bindings.len();
        while i > self.scope_start
            invariant
                self.scope_start <= i <= self.bindings@.len() <= self.scope_start + 255,
                forall|j: int| i <= j < self.bindings@.len() ==> self.bindings@[j] != name_hash,
                name_hash == crate::editor_utils::fnv1a(
                    self.bytes().subrange(
                        self.previous_token.start as int,
                        self.previous_token.end as int,
                    ),
                ),
            decreases i,
        {
            i -= 1;
            if self.bindings[i] == name_hash {
                let index = (i - self.scope_start) as u8;
                return Some(index);
            }
        }
        None
    }

    pub fn emit(&mut self, vm: &mut VirtualMachine, op: Op, position: BufferPosition)
        requires
            old(self).wf(old(vm)),
        ensures
            final(self).wf(final(vm)),
            final(self).stable(old(self)),
            final(self).tokenizer == old(self).tokenizer,
            final(self).previous_token == old(self).previous_token,
            final(self).bindings == old(self).bindings,
            final(self).top_texts == old(self).top_texts,
            final(vm).texts == old(vm).texts,
            final(vm).value_stack == old(vm).value_stack,
            extends(final(vm).ops@, old(vm).ops@),
            extends(final(vm).op_locations@, old(vm).op_locations@),
            old(self).in_macro ==> final(vm).ops@ == old(vm).ops@.push(op)
                && final(self).top_ops == old(self).top_ops
                && final(vm).op_locations@ == old(vm).op_locations@.push(
                SourceLocation { source: old(self).source, position },
            ),
            !old(self).in_macro ==> final(self).top_locations@ == old(self).top_locations@.push(
                SourceLocation { source: old(self).source, position },
            ) && final(vm).op_locations == old(vm).op_locations,
            !old(self).in_macro ==> final(self).top_ops@ == old(self).top_ops@.push(op)
                && final(vm).ops == old(vm).ops && *final(vm) == *old(vm),
    {
        let location = SourceLocation { source: self.source, position };
        if self.in_macro {
            vm.ops.push(op);
            vm.op_locations.push(location);
        } else {
            self.top_ops.push(op);
            self.top_locations.push(location);
        }
    }
}

} // verus!

verus! {

/// The byte an escape `\x` in a quoted literal stands for.
pub open spec fn unescape(x: u8) -> Option<u8> {
    if x == 0x5c {
        Some(0x5cu8)
    } else if x == 0x27 {
        Some(0x27u8)
    } else if x == 0x22 {
        Some(0x22u8)
    } else if x == 0x6e {
        Some(0x0au8)
    } else if x == 0x72 {
        Some(0x0du8)
    } else if x == 0x74 {
        Some(0x09u8)
    } else if x == 0x30 {
        Some(0x00u8)
    } else {
        None
    }
}

fn unescape_exec(x: u8) -> (r: Option<u8>)
    ensures
        r == unescape(x),
{
    if x == 0x5c {
        Some(0x5c)
    } else if x == 0x27 {
        Some(0x27)
    } else if x == 0x22 {
        Some(0x22)
    } else if x == 0x6e {
        Some(0x0a)
    } else if x == 0x72 {
        Some(0x0d)
    } else if x == 0x74 {
        Some(0x09)
    } else if x == 0x30 {
        Some(0x00)
    } else {
        None
    }
}

/// The text of a quoted literal's body `b[i..end]` with its escapes decoded;
/// `None` when an escape is not one of the known ones.
pub open spec fn decode_quoted(b: Seq<u8>, i: int, end: int) -> Option<Seq<u8>>
    decreases end - i,
{
    if i >= end {
        Some(seq![])
    } else if b[i] == 0x5c {
        if i + 1 < end {
            match unescape(b[i + 1]) {
                Some(x) => match decode_quoted(b, i + 2, end) {
                    Some(rest) => Some(seq![x] + rest),
                    None => None,
                },
                None => None,
            }
        } else {
            None
        }
    } else {
        match decode_quoted(b, i + 1, end) {
            Some(rest) => Some(seq![b[i]] + rest),
            None => None,
        }
    }
}

/// Appends the decoded body `b[i..end]` of a quoted literal to `out`.
fn push_decoded(b: &[u8], i: usize, end: usize, out: &mut Vec<u8>) -> (r: bool)
    requires
        i <= end <= b@.len(),
    ensures
        r == decode_quoted(b@, i as int, end as int).is_some(),
        r ==> final(out)@ == old(out)@ + decode_quoted(b@, i as int, end as int).unwrap(),
        extends(final(out)@, old(out)@),
    decreases end - i,
{
    if i >= end {
        assert(old(out)@ + seq![] =~= old(out)@);
        return true;
    }
    if b[i] == 0x5c {
        if i + 1 < end {
            match unescape_exec(b[i + 1]) {
                Some(x) => {
                    out.push(x);
                    let ok = push_decoded(b, i + 2, end, out);
                    if ok {
                        let ghost rest = decode_quoted(b@, i + 2, end as int).unwrap();
                        assert(final(out)@ =~= old(out)@ + (seq![x] + rest));
                    }
                    ok
                },
                None => false,
            }
        } else {
            false
        }
    } else {
        let x = b[i];
        out.push(x);
        let ok = push_decoded(b, i + 1, end, out);
        if ok {
            let ghost rest = decode_quoted(b@, i + 1, end as int).unwrap();
            assert(final(out)@ =~= old(out)@ + (seq![x] + rest));
        }
        ok
    }
}

fn push_bytes(b: &[u8], i: usize, end: usize, out: &mut Vec<u8>)
    requires
        i <= end <= b@.len(),
    ensures
        final(out)@ == old(out)@ + b@.subrange(i as int, end as int),
{
    let mut j = i;
    while j < end
        invariant
            i <= j <= end <= b@.len(),
            out@ == old(out)@ + b@.subrange(i as int, j as int),
        decreases end - j,
    {
        assert(b@.subrange(i as int, j as int + 1) =~= b@.subrange(i as int, j as int).push(
            b@[j as int],
        ));
        out.push(b[j]);
        j += 1;
    }
}

/// The text a literal token stands for: a plain literal as written, a quoted one
/// without its quotes and with its escapes decoded.
pub open spec fn literal_text(b: Seq<u8>, t: CommandToken) -> Option<Seq<u8>> {
    if t.kind == CommandTokenKind::QuotedLiteral {
        decode_quoted(b, t.start + 1, t.end - 1)
    } else {
        Some(b.subrange(t.start as int, t.end as int))
    }
}

impl<'a> Compiler<'a> {
    /// Appends the text of the previous (literal) token to the current text buffer
    /// and emits the op that pushes it.
    pub fn emit_push_literal_from_previous_token(&mut self, vm: &mut VirtualMachine) -> (r: Result<
        (),
        CommandError,
    >)
        requires
            old(self).wf(old(vm)),
            old(self).previous_token.kind == CommandTokenKind::Literal || old(self).previous_token.kind
                == CommandTokenKind::QuotedLiteral,
        ensures
            final(self).stable(old(self)),
            final(self).tokenizer == old(self).tokenizer,
            final(self).previous_token == old(self).previous_token,
            final(self).bindings == old(self).bindings,
            vm_grew(final(vm), old(vm)),
            r.is_ok() ==> final(self).wf(final(vm)),
            old(self).in_macro ==> final(self).top_ops == old(self).top_ops
                && final(self).top_texts == old(self).top_texts,
            !old(self).in_macro ==> *final(vm) == *old(vm),
            r.is_err() ==> *final(vm) == *old(vm) && final(self).top_ops == old(self).top_ops
                && final(self).top_texts == old(self).top_texts && r->Err_0.position
                == old(self).previous_token.position && r->Err_0.source == old(self).source,
            literal_text(old(self).bytes(), old(self).previous_token).is_none() <==> r
                == Err::<(), CommandError>(
                CommandError {
                    kind: CommandErrorKind::InvalidLiteralEscaping,
                    source: old(self).source,
                    position: old(self).previous_token.position,
                },
            ),
            literal_text(old(self).bytes(), old(self).previous_token).is_some() ==> {
                let text = literal_text(old(self).bytes(), old(self).previous_token).unwrap();
                let start = if old(self).in_macro {
                    old(vm).texts@.len()
                } else {
                    old(self).top_texts@.len()
                };
                let op = Op::PushStringLiteral { start: start as u16, len: text.len() as u8 };
                &&& (text.len() > 255 ==> r.is_err() && r->Err_0.kind == CommandErrorKind::LiteralTooLong)
                &&& (text.len() <= 255 && start > 0xffff ==> r.is_err() && r->Err_0.kind
                    == CommandErrorKind::TooManyLiterals)
                &&& (text.len() <= 255 && start <= 0xffff ==> {
                    &&& r.is_ok()
                    &&& old(self).in_macro ==> final(vm).texts@ == old(vm).texts@ + text
                        && final(vm).ops@ == old(vm).ops@.push(op)
                    &&& !old(self).in_macro ==> final(self).top_texts@ == old(self).top_texts@ + text
                        && final(self).top_ops@ == old(self).top_ops@.push(op)
                })
            },
    {
        let b = self.tokenizer.source.as_bytes();
        let token = self.previous_token;
        let position = token.position;
        let s = token.start as usize;
        let e = token.end as usize;
        let mut text: Vec<u8> = Vec::new();
        if token.kind == CommandTokenKind::QuotedLiteral {
            if !push_decoded(b, s + 1, e - 1, &mut text) {
                return Err(self.error(CommandErrorKind::InvalidLiteralEscaping, position));
            }
        } else {
            push_bytes(b, s, e, &mut text);
        }
        let start = if self.in_macro {
            vm.texts.len()
        } else {
            self.top_texts.len()
        };
        let len = text.len();
        if len > 255 {
            return Err(self.error(CommandErrorKind::LiteralTooLong, position));
        }
        if start > 0xffff {
            return Err(self.error(CommandErrorKind::TooManyLiterals, position));
        }
        if self.in_macro {
            vm.texts.extend_from_slice(text.as_slice());
            assert(vm.texts@ =~= old(vm).texts@ + text@);
        } else {
            self.top_texts.extend_from_slice(text.as_slice());
            assert(self.top_texts@ =~= old(self).top_texts@ + text@);
        }
        self.emit(vm, Op::PushStringLiteral { start: start as u16, len: len as u8 }, position);
        Ok(())
    }
}

} // verus!

verus! {

/// The code being emitted: a macro body's goes straight to the machine, the
/// top-level code is kept apart until the end.
pub open spec fn target(c: &Compiler, vm: &VirtualMachine) -> Seq<Op> {
    if c.in_macro {
        vm.ops@
    } else {
        c.top_ops@
    }
}

/// Whether a call token ends with `!`.
pub open spec fn has_bang(b: Seq<u8>, t: CommandToken) -> bool {
    t.start < t.end && b[t.end - 1] == 0x21
}

/// How many flags the called command declares.
pub open spec fn declared_flags(commands: CommandCollection, source: CommandSource) -> int {
    match source {
        CommandSource::Builtin(i) => commands.builtin_commands@[i as int].flags@.len() as int,
        _ => 0,
    }
}

/// The op that calls `source`.
pub open spec fn calls(op: Op, source: CommandSource, bang: bool) -> bool {
    match source {
        CommandSource::Builtin(i) => op is CallBuiltinCommand && op->CallBuiltinCommand_index == i
            && op->CallBuiltinCommand_bang == bang,
        CommandSource::Macro(i) => op == Op::CallMacroCommand(i as u16),
        CommandSource::Request(i) => op == Op::CallRequestCommand(i as u16),
    }
}

/// The shape of a compiled call appended after `t0`: `PrepareStackFrame`, an
/// empty literal for each declared flag, the arguments, the call op.
pub open spec fn call_shape(t0: Seq<Op>, t1: Seq<Op>, commands: CommandCollection, source: CommandSource, bang: bool) -> bool {
    let n = declared_flags(commands, source);
    &&& t1.len() >= t0.len() + 2 + n
    &&& t1[t0.len() as int] == Op::PrepareStackFrame
    &&& forall|j: int|
        t0.len() + 1 <= j < t0.len() + 1 + n ==> #[trigger] t1[j] == (Op::PushStringLiteral { start: 0, len: 0 })
    &&& calls(t1.last(), source, bang)
}

proof fn lemma_pad_prefix(t0: Seq<Op>, p: Seq<Op>, n: int)
    requires
        0 <= n,
        extends(p, t0),
        p.len() == t0.len() + 1 + n,
        p[t0.len() as int] == Op::PrepareStackFrame,
        forall|j: int| t0.len() + 1 <= j < t0.len() + 1 + n ==> #[trigger] p[j] == (Op::PushStringLiteral { start: 0, len: 0 }),
    ensures
        p == t0 + seq![Op::PrepareStackFrame] + Seq::new(n as nat, |_j: int| Op::PushStringLiteral { start: 0, len: 0 }),
{
    let q = t0 + seq![Op::PrepareStackFrame] + Seq::new(n as nat, |_j: int| Op::PushStringLiteral { start: 0, len: 0 });
    assert forall|j: int| 0 <= j < p.len() implies p[j] == q[j] by {
        if j < t0.len() {
            assert(p[j] == t0[j]);
        }
    }
    assert(p =~= q);
}

/// The token scanned first in `b`, when there is one.
pub open spec fn first_token(b: Seq<u8>) -> CommandToken {
    let s = crate::command::skip_blanks(b, 0);
    CommandToken {
        kind: crate::command::scan_token(b, s)->Ok_0.0,
        start: s as u32,
        end: crate::command::scan_token(b, s)->Ok_0.1 as u32,
        position: crate::command::position_of(b, s),
    }
}

/// The text of token `t` is one of the two keywords.
pub open spec fn is_keyword(b: Seq<u8>, t: CommandToken) -> bool {
    let text = b.subrange(t.start as int, t.end as int);
    text == seq![0x6du8, 0x61u8, 0x63u8, 0x72u8, 0x6fu8] || text == seq![
        0x72u8,
        0x65u8,
        0x74u8,
        0x75u8,
        0x72u8,
        0x6eu8,
    ]
}

/// A call statement with no arguments: a literal token that is not a keyword,
/// names a known command, and ends the source.
pub open spec fn bare_call_statement(b: Seq<u8>, t: CommandToken, commands: CommandCollection) -> bool {
    &&& t.kind == CommandTokenKind::Literal
    &&& !is_keyword(b, t)
    &&& ends_after(b, t.end as int)
    &&& known_call(b, t, commands)
}

/// The token scanned after index `i`.
pub open spec fn token_after(b: Seq<u8>, i: int) -> CommandToken {
    let s = crate::command::skip_blanks(b, i);
    CommandToken {
        kind: crate::command::scan_token(b, s)->Ok_0.0,
        start: s as u32,
        end: crate::command::scan_token(b, s)->Ok_0.1 as u32,
        position: crate::command::position_of(b, s),
    }
}

/// `return` followed by a quoted literal that can be emitted after
/// `texts_len` bytes, and nothing else.
pub open spec fn return_literal_statement(b: Seq<u8>, t: CommandToken, texts_len: int) -> bool {
    let q = token_after(b, t.end as int);
    &&& t.kind == CommandTokenKind::Literal
    &&& b.subrange(t.start as int, t.end as int) == seq![0x72u8, 0x65u8, 0x74u8, 0x75u8, 0x72u8, 0x6eu8]
    &&& crate::command::scan_token(b, crate::command::skip_blanks(b, t.end as int)) is Ok
    &&& q.kind == CommandTokenKind::QuotedLiteral
    &&& literal_text(b, q) is Some
    &&& literal_text(b, q)->Some_0.len() <= 255
    &&& texts_len <= 0xffff
    &&& ends_after(b, q.end as int)
}

/// After the keyword token `t`, a macro name made of identifier bytes that an
/// existing command already has.
pub open spec fn redefines(b: Seq<u8>, t: CommandToken, commands: CommandCollection) -> bool {
    let name = token_after(b, t.end as int);
    &&& crate::command::scan_token(b, crate::command::skip_blanks(b, t.end as int)) is Ok
    &&& name.kind == CommandTokenKind::Literal
    &&& forall|i: int| name.start <= i < name.end ==> crate::command::is_identifier_byte(#[trigger] b[i])
    &&& lookup(commands, crate::editor_utils::fnv1a(b.subrange(name.start as int, name.end as int))) is Some
}

/// The source starts with a call of a command nobody knows.
pub open spec fn unknown_first_command(b: Seq<u8>, commands: CommandCollection) -> bool {
    let t = first_token(b);
    &&& crate::command::scan_token(b, crate::command::skip_blanks(b, 0)) is Ok
    &&& t.kind == CommandTokenKind::Literal
    &&& !is_keyword(b, t)
    &&& lookup(commands, crate::editor_utils::fnv1a(call_name(b, t))) is None
}

/// The source starts by defining a macro under a name already taken.
pub open spec fn redefining_first_macro(b: Seq<u8>, commands: CommandCollection) -> bool {
    let t = first_token(b);
    &&& crate::command::scan_token(b, crate::command::skip_blanks(b, 0)) is Ok
    &&& t.kind == CommandTokenKind::Literal
    &&& b.subrange(t.start as int, t.end as int) == seq![0x6du8, 0x61u8, 0x63u8, 0x72u8, 0x6fu8]
    &&& redefines(b, t, commands)
}

/// The whole source is `return` and a quoted literal.
pub open spec fn return_literal_source(b: Seq<u8>) -> bool {
    &&& crate::command::scan_token(b, crate::command::skip_blanks(b, 0)) is Ok
    &&& return_literal_statement(b, first_token(b), 0)
}

/// The text of that literal.
pub open spec fn returned_text(b: Seq<u8>) -> Seq<u8> {
    literal_text(b, token_after(b, first_token(b).end as int))->Some_0
}

/// The whole source is one call of a known command without arguments.
pub open spec fn lone_call_source(b: Seq<u8>, commands: CommandCollection) -> bool {
    &&& crate::command::scan_token(b, crate::command::skip_blanks(b, 0)) is Ok
    &&& bare_call_statement(b, first_token(b), commands)
}

/// The code of the program made of that one call.
pub open spec fn lone_call_code(b: Seq<u8>, commands: CommandCollection) -> Seq<Op> {
    let t = first_token(b);
    bare_call_code(
        commands,
        lookup(commands, crate::editor_utils::fnv1a(call_name(b, t)))->Some_0,
        has_bang(b, t),
    )
}

/// A command index fits its call op.
pub open spec fn index_fits(source: CommandSource) -> bool {
    match source {
        CommandSource::Builtin(i) => i <= 255,
        CommandSource::Macro(i) => i <= 0xffff,
        CommandSource::Request(i) => i <= 0xffff,
    }
}

/// The op that calls `source` with `arg_count` positional arguments.
pub open spec fn call_op(source: CommandSource, bang: bool, arg_count: u8) -> Op {
    match source {
        CommandSource::Builtin(i) => Op::CallBuiltinCommand { index: i as u8, bang, arg_count },
        CommandSource::Macro(i) => Op::CallMacroCommand(i as u16),
        CommandSource::Request(i) => Op::CallRequestCommand(i as u16),
    }
}

/// The code of a call without arguments: `PrepareStackFrame`, one empty
/// literal per declared flag, the call op.
pub open spec fn bare_call_code(commands: CommandCollection, source: CommandSource, bang: bool) -> Seq<Op> {
    seq![Op::PrepareStackFrame] + Seq::new(
        declared_flags(commands, source) as nat,
        |_k: int| Op::PushStringLiteral { start: 0, len: 0 },
    ) + seq![call_op(source, bang, 0)]
}

/// Nothing but blanks follows index `i`.
pub open spec fn ends_after(b: Seq<u8>, i: int) -> bool {
    crate::command::skip_blanks(b, i) >= b.len()
}

/// The command called by the token `t`, when it names a known one whose index
/// fits its call op.
pub open spec fn known_call(b: Seq<u8>, t: CommandToken, commands: CommandCollection) -> bool {
    &&& lookup(commands, crate::editor_utils::fnv1a(call_name(b, t))) is Some
    &&& index_fits(lookup(commands, crate::editor_utils::fnv1a(call_name(b, t)))->Some_0)
}

/// The command name a call token stands for: its text without a trailing `!`.
pub open spec fn call_name(b: Seq<u8>, t: CommandToken) -> Seq<u8> {
    if t.start < t.end && b[t.end - 1] == 0x21 {
        b.subrange(t.start as int, t.end - 1)
    } else {
        b.subrange(t.start as int, t.end as int)
    }
}

/// What every grammar function guarantees: the compiler keeps its source and
/// scope, the machine only grows, and on success the state is well formed.
pub open spec fn step(
    old_c: &Compiler,
    new_c: &Compiler,
    old_vm: &VirtualMachine,
    new_vm: &VirtualMachine,
    ok: bool,
) -> bool {
    &&& vm_grew(new_vm, old_vm)
    &&& ok ==> new_c.stable(old_c)
    &&& ok ==> extends(new_c.top_ops@, old_c.top_ops@)
    &&& ok ==> new_c.wf(new_vm)
    &&& ok ==> new_c.remaining() < old_c.remaining()
}

fn bytes_equal(b: &[u8], s: usize, e: usize, w: &[u8]) -> (r: bool)
    requires
        s <= e <= b@.len(),
    ensures
        r == (b@.subrange(s as int, e as int) == w@),
{
    if e - s != w.len() {
        assert(b@.subrange(s as int, e as int).len() != w@.len());
        return false;
    }
    let mut i: usize = 0;
    while i < w.len()
        invariant
            i <= w@.len(),
            s + w@.len() == e <= b@.len(),
            forall|j: int| 0 <= j < i ==> b@[s + j] == w@[j],
        decreases w@.len() - i,
    {
        if b[s + i] != w[i] {
            assert(b@.subrange(s as int, e as int)[i as int] != w@[i as int]);
            assert(b@.subrange(s as int, e as int) != w@);
            return false;
        }
        i += 1;
    }
    assert(b@.subrange(s as int, e as int) =~= w@);
    true
}

/// Whether flag `f` is named `name` (its UTF-8 bytes).
pub open spec fn flag_named(f: String, name: Seq<u8>) -> bool {
    vstd::utf8::encode_utf8(f@) == name
}

/// The index of the first flag whose name is `b[s..e]`.
pub fn find_flag(b: &[u8], s: usize, e: usize, flags: &Vec<String>) -> (r: Option<usize>)
    requires
        s <= e <= b@.len(),
    ensures
        match r {
            Some(j) => j < flags@.len() && flag_named(flags@[j as int], b@.subrange(s as int, e as int))
                && forall|i: int| 0 <= i < j ==> !flag_named(#[trigger] flags@[i], b@.subrange(s as int, e as int)),
            None => forall|i: int| 0 <= i < flags@.len() ==> !flag_named(#[trigger] flags@[i], b@.subrange(s as int, e as int)),
        },
{
    let mut j: usize = 0;
    while j < flags.len()
        invariant
            j <= flags@.len(),
            s <= e <= b@.len(),
            forall|i: int| 0 <= i < j ==> !flag_named(#[trigger] flags@[i], b@.subrange(s as int, e as int)),
        decreases flags@.len() - j,
    {
        if bytes_equal(b, s, e, flags[j].as_str().as_bytes()) {
            return Some(j);
        }
        j += 1;
    }
    None
}

/// Where the literal of the previous token goes: its start in the texts being
/// built, and the op that pushes it.
pub open spec fn texts_target(c: &Compiler, vm: &VirtualMachine) -> Seq<u8> {
    if c.in_macro {
        vm.texts@
    } else {
        c.top_texts@
    }
}

/// The previous token is a quoted literal that can be emitted, and the token
/// after it scans.
pub open spec fn emittable_quote(c: &Compiler, vm: &VirtualMachine) -> bool {
    let b = c.bytes();
    let t = c.previous_token;
    &&& t.kind == CommandTokenKind::QuotedLiteral
    &&& literal_text(b, t) is Some
    &&& literal_text(b, t)->Some_0.len() <= 255
    &&& texts_target(c, vm).len() <= 0xffff
    &&& crate::command::scan_token(b, crate::command::skip_blanks(b, t.end as int)) is Ok
}

/// The op that pushes the previous token's literal.
pub open spec fn quote_op(c: &Compiler, vm: &VirtualMachine) -> Op {
    Op::PushStringLiteral {
        start: texts_target(c, vm).len() as u16,
        len: literal_text(c.bytes(), c.previous_token)->Some_0.len() as u8,
    }
}

/// Compiles an expression: a literal, a binding, or a call in parentheses.
pub fn expression(
    c: &mut Compiler,
    commands: &CommandCollection,
    vm: &mut VirtualMachine,
    depth: usize,
) -> (r: Result<(), CommandError>)
    requires
        old(c).wf(old(vm)),
    ensures
        step(old(c), final(c), old(vm), final(vm), r.is_ok()),
        emittable_quote(old(c), old(vm)) ==> {
            &&& r.is_ok()
            &&& target(final(c), final(vm)) == target(old(c), old(vm)).push(quote_op(old(c), old(vm)))
            &&& texts_target(final(c), final(vm)) == texts_target(old(c), old(vm)) + literal_text(
                old(c).bytes(),
                old(c).previous_token,
            )->Some_0
            &&& advanced(old(c), final(c), Ok(()))
            &&& !old(c).in_macro ==> *final(vm) == *old(vm)
        },
        old(c).previous_token.kind == CommandTokenKind::Binding && r.is_ok() ==> {
            let t = target(final(c), final(vm));
            let k = old(c).scope_start as int + t.last()->DuplicateAt_0 as int;
            &&& t.len() > 0 && t.last() is DuplicateAt
            &&& t == target(old(c), old(vm)).push(t.last())
            &&& k < old(c).bindings@.len()
            &&& old(c).bindings@[k] == crate::editor_utils::fnv1a(
                old(c).bytes().subrange(
                    old(c).previous_token.start as int,
                    old(c).previous_token.end as int,
                ),
            )
        },
        old(c).previous_token.kind == CommandTokenKind::Binding && (forall|j: int|
            old(c).scope_start <= j < old(c).bindings@.len() ==> old(c).bindings@[j]
                != crate::editor_utils::fnv1a(
                old(c).bytes().subrange(
                    old(c).previous_token.start as int,
                    old(c).previous_token.end as int,
                ),
            )) ==> r == Err::<(), CommandError>(
            CommandError {
                kind: CommandErrorKind::UndeclaredBinding,
                source: old(c).source,
                position: old(c).previous_token.position,
            },
        ),
    decreases depth, 0nat,
{
    while c.previous_token.kind == CommandTokenKind::EndOfLine
        invariant
            old(c).previous_token.kind != CommandTokenKind::EndOfLine ==> *c == *old(c) && *vm == *old(vm),
            c.wf(vm),
            c.stable(old(c)),
            vm_grew(vm, old(vm)),
            extends(c.top_ops@, old(c).top_ops@),
            c.remaining() <= old(c).remaining(),
        decreases c.remaining(),
    {
        c.next_token()?;
    }
    let kind = c.previous_token.kind;
    let position = c.previous_token.position;
    if kind == CommandTokenKind::Literal || kind == CommandTokenKind::QuotedLiteral {
        c.emit_push_literal_from_previous_token(vm)?;
        c.next_token()
    } else if kind == CommandTokenKind::OpenParenthesis {
        if depth == 0 {
            return Err(c.error(CommandErrorKind::AstTooLong, position));
        }
        c.next_token()?;
        command_call(c, commands, vm, true, depth - 1)?;
        c.consume_token(CommandTokenKind::CloseParenthesis)
    } else if kind == CommandTokenKind::Binding {
        match c.find_binding_stack_index_from_previous_token() {
            Some(index) => {
                c.next_token()?;
                c.emit(vm, Op::DuplicateAt(index), position);
                Ok(())
            },
            None => Err(c.error(CommandErrorKind::UndeclaredBinding, position)),
        }
    } else {
        Err(c.error(CommandErrorKind::ExpectedExpression, position))
    }
}

/// Compiles a call of the command named by the previous token.
#[verifier::rlimit(80)]
pub fn command_call(
    c: &mut Compiler,
    commands: &CommandCollection,
    vm: &mut VirtualMachine,
    ignore_end_of_line: bool,
    depth: usize,
) -> (r: Result<(), CommandError>)
    requires
        old(c).wf(old(vm)),
    ensures
        step(old(c), final(c), old(vm), final(vm), r.is_ok()),
        old(c).previous_token.kind == CommandTokenKind::Literal && ends_after(
            old(c).bytes(),
            old(c).previous_token.end as int,
        ) && known_call(old(c).bytes(), old(c).previous_token, *commands) ==> {
            &&& r.is_ok()
            &&& target(final(c), final(vm)) == target(old(c), old(vm)) + bare_call_code(
                *commands,
                lookup(*commands, crate::editor_utils::fnv1a(call_name(old(c).bytes(), old(c).previous_token)))->Some_0,
                has_bang(old(c).bytes(), old(c).previous_token),
            )
            &&& final(c).previous_token.kind == CommandTokenKind::EndOfSource
            &&& final(c).top_texts == old(c).top_texts
            &&& final(c).bindings == old(c).bindings
            &&& !old(c).in_macro ==> *final(vm) == *old(vm)
        },
        r.is_ok() ==> call_shape(
            target(old(c), old(vm)),
            target(final(c), final(vm)),
            *commands,
            lookup(*commands, crate::editor_utils::fnv1a(call_name(old(c).bytes(), old(c).previous_token)))->Some_0,
            has_bang(old(c).bytes(), old(c).previous_token),
        ),
        lookup(*commands, crate::editor_utils::fnv1a(call_name(old(c).bytes(), old(c).previous_token)))
            is None ==> r == Err::<(), CommandError>(
            CommandError {
                kind: CommandErrorKind::NoSuchCommand,
                source: old(c).source,
                position: old(c).previous_token.position,
            },
        ),
    decreases depth, 1nat,
{
    let position = c.previous_token.position;
    let b = c.tokenizer.source.as_bytes();
    let s = c.previous_token.start as usize;
    let mut e = c.previous_token.end as usize;
    let mut bang = false;
    if s < e && b[e - 1] == 0x21 {
        e = e - 1;
        bang = true;
    }
    let name_hash = hash_bytes(vstd::slice::slice_subrange(b, s, e));
    let command_source = match find_command(commands, name_hash) {
        Some(source) => source,
        None => {
            return Err(c.error(CommandErrorKind::NoSuchCommand, position));
        },
    };
    assert(call_name(old(c).bytes(), old(c).previous_token) == b@.subrange(s as int, e as int));
    let ghost t0 = target(old(c), old(vm));
    let ghost n = declared_flags(*commands, command_source);
    let ghost lone = old(c).previous_token.kind == CommandTokenKind::Literal && ends_after(
        old(c).bytes(),
        old(c).previous_token.end as int,
    ) && known_call(old(c).bytes(), old(c).previous_token, *commands);
    let ghost pad = |k: int| Seq::new(k as nat, |_j: int| Op::PushStringLiteral { start: 0, len: 0 });
    c.consume_token(CommandTokenKind::Literal)?;
    let ghost c_named = *c;
    assert(lone ==> c.previous_token.kind == CommandTokenKind::EndOfSource);
    c.emit(vm, Op::PrepareStackFrame, position);

    if let CommandSource::Builtin(i) = command_source {
        let flag_count = commands.builtin_commands[i].flags.len();
        let mut k: usize = 0;
        while k < flag_count
            invariant
                c.wf(vm),
                c.stable(old(c)),
                vm_grew(vm, old(vm)),
                extends(c.top_ops@, old(c).top_ops@),
                c.remaining() < old(c).remaining(),
                k <= flag_count,
                flag_count == n,
                c.previous_token == c_named.previous_token,
                c.top_texts == old(c).top_texts,
                c.bindings == old(c).bindings,
                !c.in_macro ==> *vm == *old(vm),

                target(c, vm).len() == t0.len() + 1 + k,
                target(c, vm)[t0.len() as int] == Op::PrepareStackFrame,
                forall|j: int| t0.len() + 1 <= j < t0.len() + 1 + k ==> #[trigger] target(c, vm)[j] == (Op::PushStringLiteral { start: 0, len: 0 }),
                lookup(*commands, crate::editor_utils::fnv1a(call_name(old(c).bytes(), old(c).previous_token))) is Some,
            decreases flag_count - k,
        {
            c.emit(vm, Op::PushStringLiteral { start: 0, len: 0 }, position);
            k += 1;
        }
    }
    let ghost p = target(c, vm);
    let ghost c_p = *c;
    let ghost vm_p = *vm;
    proof {
        if lone {
            lemma_pad_prefix(t0, p, n);
        }
    }
    let mut arg_count: u8 = 0;
    loop
        invariant
            c.wf(vm),
            c.stable(old(c)),
            vm_grew(vm, old(vm)),
            extends(c.top_ops@, old(c).top_ops@),
            c.remaining() < old(c).remaining(),
            b@ == c.bytes(),
            extends(target(c, vm), p),
            lone ==> arg_count == 0 && *c == c_p && *vm == vm_p
                && c_p.previous_token.kind == CommandTokenKind::EndOfSource,
            lone == (old(c).previous_token.kind == CommandTokenKind::Literal && ends_after(
                old(c).bytes(),
                old(c).previous_token.end as int,
            ) && known_call(old(c).bytes(), old(c).previous_token, *commands)),

            c.in_macro == old(c).in_macro,
            p.len() >= t0.len() + 1 + n,
            p[t0.len() as int] == Op::PrepareStackFrame,
            forall|j: int| t0.len() + 1 <= j < t0.len() + 1 + n ==> #[trigger] p[j] == (Op::PushStringLiteral { start: 0, len: 0 }),
            lookup(*commands, crate::editor_utils::fnv1a(call_name(old(c).bytes(), old(c).previous_token))) is Some,
            match command_source {
                CommandSource::Builtin(i) => i < commands.builtin_commands@.len(),
                _ => true,
            },
        decreases c.remaining(),
    {
        let kind = c.previous_token.kind;
        if kind == CommandTokenKind::Flag {
            let flag_position = c.previous_token.position;
            let fs = c.previous_token.start as usize + 1;
            let fe = c.previous_token.end as usize;
            c.next_token()?;
            let flags = match command_source {
                CommandSource::Builtin(i) => &commands.builtin_commands[i].flags,
                _ => {
                    return Err(c.error(CommandErrorKind::NoSuchFlag, flag_position));
                },
            };
            let index = find_flag(b, fs, fe, flags);
            let index: u8 = match index {
                Some(index) => {
                    if index > 255 {
                        return Err(c.error(CommandErrorKind::TooManyFlags, flag_position));
                    }
                    index as u8
                },
                None => {
                    return Err(c.error(CommandErrorKind::NoSuchFlag, flag_position));
                },
            };
            if c.previous_token.kind == CommandTokenKind::Equals {
                c.next_token()?;
                expression(c, commands, vm, depth)?;
                c.emit(vm, Op::PopAsFlag(index), flag_position);
            } else {
                c.emit(vm, Op::PushStringLiteral { start: 0, len: 0 }, flag_position);
                c.emit(vm, Op::PopAsFlag(index), flag_position);
            }
        } else if kind == CommandTokenKind::EndOfLine {
            c.next_token()?;
            if !ignore_end_of_line {
                break ;
            }
        } else if kind == CommandTokenKind::CloseParenthesis || kind
            == CommandTokenKind::CloseCurlyBrackets || kind == CommandTokenKind::EndOfSource {
            break ;
        } else {
            if arg_count == 255 {
                return Err(c.error(CommandErrorKind::WrongNumberOfArgs, position));
            }
            arg_count += 1;
            expression(c, commands, vm, depth)?;
        }
    }
    let op = match command_source {
        CommandSource::Builtin(i) => {
            if i > 255 {
                return Err(c.error(CommandErrorKind::NoSuchCommand, position));
            }
            Op::CallBuiltinCommand { index: i as u8, bang, arg_count }
        },
        CommandSource::Macro(i) => {
            if i > 0xffff {
                return Err(c.error(CommandErrorKind::TooManyMacroCommands, position));
            }
            Op::CallMacroCommand(i as u16)
        },
        CommandSource::Request(i) => {
            if i > 0xffff {
                return Err(c.error(CommandErrorKind::NoSuchCommand, position));
            }
            Op::CallRequestCommand(i as u16)
        },
    };
    c.emit(vm, op, position);
    Ok(())
}

} // verus!

verus! {

fn expression_or_command_call(
    c: &mut Compiler,
    commands: &CommandCollection,
    vm: &mut VirtualMachine,
    depth: usize,
) -> (r: Result<(), CommandError>)
    requires
        old(c).wf(old(vm)),
    ensures
        step(old(c), final(c), old(vm), final(vm), r.is_ok()),
        emittable_quote(old(c), old(vm)) ==> {
            &&& r.is_ok()
            &&& target(final(c), final(vm)) == target(old(c), old(vm)).push(quote_op(old(c), old(vm)))
            &&& texts_target(final(c), final(vm)) == texts_target(old(c), old(vm)) + literal_text(
                old(c).bytes(),
                old(c).previous_token,
            )->Some_0
            &&& advanced(old(c), final(c), Ok(()))
            &&& !old(c).in_macro ==> *final(vm) == *old(vm)
        },
{
    if c.previous_token.kind == CommandTokenKind::Literal {
        command_call(c, commands, vm, false, depth)
    } else {
        expression(c, commands, vm, depth)
    }
}

/// The bytes of `return`.
const RETURN_KEYWORD: [u8; 6] = [0x72, 0x65, 0x74, 0x75, 0x72, 0x6e];

/// The bytes of `macro`.
const MACRO_KEYWORD: [u8; 5] = [0x6d, 0x61, 0x63, 0x72, 0x6f];

fn statement(
    c: &mut Compiler,
    commands: &CommandCollection,
    vm: &mut VirtualMachine,
    depth: usize,
) -> (r: Result<(), CommandError>)
    requires
        old(c).wf(old(vm)),
        old(c).previous_token.kind != CommandTokenKind::EndOfSource,
    ensures
        step(old(c), final(c), old(vm), final(vm), r.is_ok()),
        bare_call_statement(old(c).bytes(), old(c).previous_token, *commands) ==> {
            &&& r.is_ok()
            &&& target(final(c), final(vm)) == target(old(c), old(vm)) + bare_call_code(
                *commands,
                lookup(*commands, crate::editor_utils::fnv1a(call_name(old(c).bytes(), old(c).previous_token)))->Some_0,
                has_bang(old(c).bytes(), old(c).previous_token),
            ) + seq![Op::Pop]
            &&& final(c).previous_token.kind == CommandTokenKind::EndOfSource
            &&& final(c).top_texts == old(c).top_texts
            &&& !old(c).in_macro ==> *final(vm) == *old(vm)
        },
        old(c).previous_token.kind == CommandTokenKind::Literal && !is_keyword(old(c).bytes(), old(c).previous_token)
            && lookup(*commands, crate::editor_utils::fnv1a(call_name(old(c).bytes(), old(c).previous_token)))
            is None ==> r == Err::<(), CommandError>(
            CommandError {
                kind: CommandErrorKind::NoSuchCommand,
                source: old(c).source,
                position: old(c).previous_token.position,
            },
        ),
        return_literal_statement(old(c).bytes(), old(c).previous_token, texts_target(old(c), old(vm)).len() as int) ==> {
            let q = token_after(old(c).bytes(), old(c).previous_token.end as int);
            let text = literal_text(old(c).bytes(), q)->Some_0;
            &&& r.is_ok()
            &&& target(final(c), final(vm)) == target(old(c), old(vm)) + seq![
                Op::PushStringLiteral { start: texts_target(old(c), old(vm)).len() as u16, len: text.len() as u8 },
                Op::Return,
            ]
            &&& texts_target(final(c), final(vm)) == texts_target(old(c), old(vm)) + text
            &&& final(c).previous_token.kind == CommandTokenKind::EndOfSource
            &&& !old(c).in_macro ==> *final(vm) == *old(vm)
        },
{
    proof {
        assert(MACRO_KEYWORD@ =~= seq![0x6du8, 0x61u8, 0x63u8, 0x72u8, 0x6fu8]);
        assert(RETURN_KEYWORD@ =~= seq![0x72u8, 0x65u8, 0x74u8, 0x75u8, 0x72u8, 0x6eu8]);
    }
    let kind = c.previous_token.kind;
    let position = c.previous_token.position;
    if kind == CommandTokenKind::Literal {
        if c.previous_token_is(&MACRO_KEYWORD) {
            Err(c.error(CommandErrorKind::ExpectedStatement, position))
        } else if c.previous_token_is(&RETURN_KEYWORD) {
            c.next_token()?;
            let ghost pushed_from = target(c, vm);
            expression_or_command_call(c, commands, vm, depth)?;
            let ghost pushed = target(c, vm);
            c.emit(vm, Op::Return, position);
            assert(target(c, vm) == pushed.push(Op::Return));
            proof {
                if return_literal_statement(old(c).bytes(), old(c).previous_token, texts_target(old(c), old(vm)).len() as int) {
                    assert(target(c, vm) =~= target(old(c), old(vm)) + seq![pushed.last(), Op::Return]);
                }
            }
            Ok(())
        } else {
            let ghost before = target(c, vm);
            command_call(c, commands, vm, false, depth)?;
            let ghost called = target(c, vm);
            c.emit(vm, Op::Pop, position);
            assert(target(c, vm) == called.push(Op::Pop));
            Ok(())
        }
    } else if kind == CommandTokenKind::OpenParenthesis {
        expression(c, commands, vm, depth)?;
        c.emit(vm, Op::Pop, position);
        Ok(())
    } else if kind == CommandTokenKind::Binding {
        c.declare_binding_from_previous_token()?;
        c.next_token()?;
        c.consume_token(CommandTokenKind::Equals)?;
        expression_or_command_call(c, commands, vm, depth)
    } else if kind == CommandTokenKind::EndOfLine {
        c.next_token()
    } else {
        Err(c.error(CommandErrorKind::ExpectedStatement, position))
    }
}

/// Whether `b[s..e]` is made of identifier bytes only.
fn is_identifier(b: &[u8], s: usize, e: usize) -> (r: bool)
    requires
        s <= e <= b@.len(),
    ensures
        r == forall|i: int| s <= i < e ==> crate::command::is_identifier_byte(#[trigger] b@[i]),
{
    let mut i = s;
    while i < e
        invariant
            s <= i <= e <= b@.len(),
            forall|j: int| s <= j < i ==> crate::command::is_identifier_byte(#[trigger] b@[j]),
        decreases e - i,
    {
        let x = b[i];
        if !((0x61 <= x && x <= 0x7a) || (0x41 <= x && x <= 0x5a) || (0x30 <= x && x <= 0x39) || x
            == 0x5f || x == 0x2d) {
            return false;
        }
        i += 1;
    }
    true
}

fn macro_definition(
    c: &mut Compiler,
    commands: &mut CommandCollection,
    vm: &mut VirtualMachine,
    depth: usize,
) -> (r: Result<(), CommandError>)
    requires
        old(c).wf(old(vm)),
        !old(c).in_macro,
        old(c).previous_token.kind == CommandTokenKind::Literal,
    ensures
        step(old(c), final(c), old(vm), final(vm), r.is_ok()),
        final(commands).builtin_commands == old(commands).builtin_commands,
        final(commands).request_commands == old(commands).request_commands,
        extends(final(commands).macro_commands@, old(commands).macro_commands@),
        r.is_ok() ==> final(commands).macro_commands@.len() == old(commands).macro_commands@.len() + 1
            && body_in(final(commands).macro_commands@.last(), final(vm).ops@, old(vm).ops@.len() as int),
        r.is_err() ==> final(commands).macro_commands == old(commands).macro_commands,
        redefines(old(c).bytes(), old(c).previous_token, *old(commands)) ==> r == Err::<(), CommandError>(
            CommandError {
                kind: CommandErrorKind::CommandAlreadyExists,
                source: old(c).source,
                position: token_after(old(c).bytes(), old(c).previous_token.end as int).position,
            },
        ),
{
    c.consume_token(CommandTokenKind::Literal)?;
    let position = c.previous_token.position;
    if c.previous_token.kind != CommandTokenKind::Literal {
        return Err(c.error(CommandErrorKind::ExpectedToken(CommandTokenKind::Literal), position));
    }
    let b = c.tokenizer.source.as_bytes();
    let s = c.previous_token.start as usize;
    let e = c.previous_token.end as usize;
    if !is_identifier(b, s, e) {
        return Err(c.error(CommandErrorKind::InvalidMacroName, position));
    }
    let name_hash = hash_bytes(vstd::slice::slice_subrange(b, s, e));
    if find_command(commands, name_hash).is_some() {
        return Err(c.error(CommandErrorKind::CommandAlreadyExists, position));
    }
    assert(!redefines(old(c).bytes(), old(c).previous_token, *old(commands)));
    if commands.macro_commands.len() >= 0xffff {
        return Err(c.error(CommandErrorKind::TooManyMacroCommands, position));
    }
    c.consume_token(CommandTokenKind::Literal)?;
    let scope_start = c.scope_start;
    let outer_bindings = c.bindings.len();
    c.in_macro = true;
    c.scope_start = outer_bindings;
    loop
        invariant
            c.wf(vm),
            c.in_macro,
            c.scope_start == outer_bindings,
            c.tokenizer.source == old(c).tokenizer.source,
            c.source == old(c).source,
            vm_grew(vm, old(vm)),
            extends(c.top_ops@, old(c).top_ops@),
            c.remaining() < old(c).remaining(),
            !redefines(old(c).bytes(), old(c).previous_token, *old(commands)),
        decreases c.remaining(),
    {
        let kind = c.previous_token.kind;
        if kind == CommandTokenKind::OpenCurlyBrackets {
            c.next_token()?;
            break ;
        } else if kind == CommandTokenKind::Binding {
            c.declare_binding_from_previous_token()?;
            c.next_token()?;
        } else {
            return Err(
                c.error(
                    CommandErrorKind::ExpectedToken(CommandTokenKind::OpenCurlyBrackets),
                    c.previous_token.position,
                ),
            );
        }
    }
    let param_count = (c.bindings.len() - outer_bindings) as u8;
    let op_start_index = vm.ops.len();
    while c.previous_token.kind != CommandTokenKind::CloseCurlyBrackets
        invariant
            c.wf(vm),
            c.in_macro,
            c.scope_start == outer_bindings,
            c.tokenizer.source == old(c).tokenizer.source,
            c.source == old(c).source,
            vm_grew(vm, old(vm)),
            extends(c.top_ops@, old(c).top_ops@),
            c.remaining() < old(c).remaining(),
            !redefines(old(c).bytes(), old(c).previous_token, *old(commands)),
        decreases c.remaining(),
    {
        if c.previous_token.kind == CommandTokenKind::EndOfSource {
            return Err(
                c.error(
                    CommandErrorKind::ExpectedToken(CommandTokenKind::CloseCurlyBrackets),
                    c.previous_token.position,
                ),
            );
        }
        statement(c, commands, vm, depth)?;
    }
    c.next_token()?;
    c.emit(vm, Op::PushStringLiteral { start: 0, len: 0 }, position);
    c.emit(vm, Op::Return, position);
    let op_end_index = vm.ops.len();
    assert(vm.ops@[op_end_index - 1] == Op::Return);
    if op_end_index > 0xffff_ffff {
        return Err(c.error(CommandErrorKind::AstTooLong, position));
    }
    commands.macro_commands.push(
        MacroCommand {
            name_hash,
            op_start_index: op_start_index as u32,
            op_end_index: op_end_index as u32,
            param_count,
        },
    );
    c.bindings.truncate(outer_bindings);
    c.in_macro = false;
    c.scope_start = scope_start;
    Ok(())
}

/// The body of macro `m` lies in `ops`, at or after `from`, and ends with a
/// `Return`.
pub open spec fn body_in(m: MacroCommand, ops: Seq<Op>, from: int) -> bool {
    &&& from <= m.op_start_index < m.op_end_index <= ops.len()
    &&& ops[m.op_end_index - 1] == Op::Return
}

/// A top-level op once its texts are moved to start at `base`.
pub open spec fn relocated(op: Op, base: int) -> Op {
    match op {
        Op::PushStringLiteral { start, len } => if len == 0 {
            op
        } else {
            Op::PushStringLiteral { start: (start + base) as u16, len }
        },
        _ => op,
    }
}

/// Every literal of the code still fits its op once moved by `base`.
pub open spec fn fits_at(ops: Seq<Op>, base: int) -> bool {
    forall|j: int|
        0 <= j < ops.len() && (#[trigger] ops[j]) is PushStringLiteral && ops[j]->PushStringLiteral_len
            > 0 ==> base + ops[j]->PushStringLiteral_start <= 0xffff
}

/// Every literal the code pushes is empty.
pub open spec fn literals_are_empty(ops: Seq<Op>) -> bool {
    forall|j: int| 0 <= j < ops.len() ==> !((#[trigger] ops[j]) is PushStringLiteral && ops[j]->PushStringLiteral_len > 0)
}

/// Appends the top-level code after the macro bodies: its texts go after the
/// definitions' texts, and its literal ops are moved along with them.
fn append_top_level(c: &Compiler, vm: &mut VirtualMachine) -> (r: Result<(), CommandError>)
    requires
        old(vm).ops@.len() == old(vm).op_locations@.len(),
        c.top_ops@.len() == c.top_locations@.len(),
    ensures
        vm_grew(final(vm), old(vm)),
        final(vm).ops@.len() == final(vm).op_locations@.len(),
        r.is_ok() ==> final(vm).ops@.len() == old(vm).ops@.len() + c.top_ops@.len(),
        r.is_ok() ==> final(vm).texts@ == old(vm).texts@ + c.top_texts@,
        r.is_ok() ==> forall|j: int|
            0 <= j < c.top_ops@.len() && c.top_ops@[j] == Op::Return ==> final(vm).ops@[old(
                vm,
            ).ops@.len() + j] == Op::Return,
        literals_are_empty(c.top_ops@) ==> r is Ok && final(vm).ops@ == old(vm).ops@ + c.top_ops@,
        fits_at(c.top_ops@, old(vm).texts@.len() as int) ==> r is Ok,
        r is Ok ==> final(vm).ops@.len() == old(vm).ops@.len() + c.top_ops@.len() && forall|j: int|
            0 <= j < c.top_ops@.len() ==> final(vm).ops@[old(vm).ops@.len() + j] == relocated(
                #[trigger] c.top_ops@[j],
                old(vm).texts@.len() as int,
            ),
{
    let base = vm.texts.len();
    vm.texts.extend_from_slice(c.top_texts.as_slice());
    assert(vm.texts@ =~= old(vm).texts@ + c.top_texts@);
    let mut i: usize = 0;
    while i < c.top_ops.len()
        invariant
            i <= c.top_ops@.len() == c.top_locations@.len(),
            vm_grew(vm, old(vm)),
            vm.texts@ == old(vm).texts@ + c.top_texts@,
            vm.ops@.len() == vm.op_locations@.len() == old(vm).ops@.len() + i,
            base == old(vm).texts@.len(),
            forall|j: int|
                0 <= j < i && c.top_ops@[j] == Op::Return ==> vm.ops@[old(vm).ops@.len() + j]
                    == Op::Return,
            literals_are_empty(c.top_ops@) ==> vm.ops@ == old(vm).ops@ + c.top_ops@.subrange(0, i as int),
            forall|j: int|
                0 <= j < i ==> vm.ops@[old(vm).ops@.len() + j] == relocated(
                    #[trigger] c.top_ops@[j],
                    old(vm).texts@.len() as int,
                ),
            fits_at(c.top_ops@, old(vm).texts@.len() as int) ==> fits_at(c.top_ops@, base as int),
        decreases c.top_ops@.len() - i,
    {
        let op = match c.top_ops[i] {
            Op::PushStringLiteral { start, len } => {
                if len == 0 {
                    Op::PushStringLiteral { start, len }
                } else if base > 0xffff || start as usize > 0xffff - base {
                    return Err(
                        CommandError {
                            kind: CommandErrorKind::TooManyLiterals,
                            source: c.top_locations[i].source,
                            position: c.top_locations[i].position,
                        },
                    );
                } else {
                    Op::PushStringLiteral { start: (start as usize + base) as u16, len }
                }
            },
            op => op,
        };
        let ghost before = vm.ops@;
        vm.ops.push(op);
        vm.op_locations.push(c.top_locations[i]);
        proof {
            if literals_are_empty(c.top_ops@) {
                assert(op == c.top_ops@[i as int]);
                assert(vm.ops@ =~= old(vm).ops@ + c.top_ops@.subrange(0, i as int + 1));
            }
        }
        i += 1;
    }
    assert(c.top_ops@.subrange(0, i as int) =~= c.top_ops@);
    Ok(())
}

} // verus!

verus! {

/// Where the definitions end: the top-level code starts at op `ops_len`, and
/// its texts at byte `texts_len`.
#[derive(Debug, Clone, Copy, PartialEq, Eq, Structural)]
pub struct Definitions {
    pub ops_len: usize,
    pub texts_len: usize,
}

/// Compiles `source`: the bodies of its macros are appended to the machine's
/// code and registered as macro commands, then its top-level code follows them,
/// ending with a `Return` of the program's value.
pub fn compile(
    source: &str,
    source_handle: SourcePathHandle,
    commands: &mut CommandCollection,
    vm: &mut VirtualMachine,
) -> (r: Result<Definitions, CommandError>)
    requires
        source.spec_bytes().len() < u32::MAX,
        old(vm).ops@.len() == old(vm).op_locations@.len(),
    ensures
        unknown_first_command(source.spec_bytes(), *old(commands)) ==> r is Err && r->Err_0.kind
            == CommandErrorKind::NoSuchCommand && r->Err_0.position == first_token(source.spec_bytes()).position,
        redefining_first_macro(source.spec_bytes(), *old(commands)) ==> r is Err && r->Err_0.kind
            == CommandErrorKind::CommandAlreadyExists && r->Err_0.position == token_after(
            source.spec_bytes(),
            first_token(source.spec_bytes()).end as int,
        ).position,
        return_literal_source(source.spec_bytes()) && old(vm).texts@.len() <= 0xffff ==> r is Ok
            && r->Ok_0.ops_len == old(vm).ops@.len() && final(vm).ops@ == old(vm).ops@ + seq![
            relocated(
                Op::PushStringLiteral { start: 0, len: returned_text(source.spec_bytes()).len() as u8 },
                old(vm).texts@.len() as int,
            ),
            Op::Return,
            Op::PushStringLiteral { start: 0, len: 0 },
            Op::Return,
        ] && final(vm).texts@ == old(vm).texts@ + returned_text(source.spec_bytes()),
        lone_call_source(source.spec_bytes(), *old(commands)) ==> r is Ok && final(vm).ops@ == old(
            vm,
        ).ops@ + lone_call_code(source.spec_bytes(), *old(commands)) + seq![
            Op::Pop,
            Op::PushStringLiteral { start: 0, len: 0 },
            Op::Return,
        ] && final(vm).texts@ == old(vm).texts@ && r->Ok_0.ops_len == old(vm).ops@.len(),
        no_tokens(source.spec_bytes()) ==> r is Ok && final(vm).ops@ == old(vm).ops@ + seq![
            Op::PushStringLiteral { start: 0, len: 0 },
            Op::Return,
        ] && final(vm).texts@ == old(vm).texts@,
        no_tokens(source.spec_bytes()) ==> r is Ok && r->Ok_0.ops_len == old(vm).ops@.len(),
        vm_grew(final(vm), old(vm)),
        final(commands).builtin_commands == old(commands).builtin_commands,
        final(commands).request_commands == old(commands).request_commands,
        extends(final(commands).macro_commands@, old(commands).macro_commands@),
        match r {
            Ok(d) => {
                &&& final(vm).ops@.len() == final(vm).op_locations@.len()
                &&& old(vm).ops@.len() <= d.ops_len < final(vm).ops@.len()
                &&& old(vm).texts@.len() <= d.texts_len <= final(vm).texts@.len()
                &&& final(vm).ops@.last() == Op::Return
                &&& forall|i: int|
                    old(commands).macro_commands@.len() <= i < final(commands).macro_commands@.len()
                        ==> body_in(
                        #[trigger] final(commands).macro_commands@[i],
                        final(vm).ops@.subrange(0, d.ops_len as int),
                        old(vm).ops@.len() as int,
                    )
            },
            Err(e) => e.source == source_handle,
        },
{
    let mut c = Compiler::new(source, source_handle);
    let depth = source.as_bytes().len() + 1;
    let r = compile_program(&mut c, commands, vm, depth);
    match r {
        Ok(d) => Ok(d),
        Err(e) => Err(CommandError { kind: e.kind, source: source_handle, position: e.position }),
    }
}

#[verifier::rlimit(100)]
fn compile_program(
    c: &mut Compiler,
    commands: &mut CommandCollection,
    vm: &mut VirtualMachine,
    depth: usize,
) -> (r: Result<Definitions, CommandError>)
    requires
        old(c).parser_wf(),
        !old(c).in_macro,
        old(c).scope_start == 0,
        old(c).bindings@.len() == 0,
        old(c).top_ops@.len() == 0 && old(c).top_locations@.len() == 0,
        old(c).top_texts@.len() == 0,
        old(c).tokenizer.index == 0,
        old(vm).ops@.len() == old(vm).op_locations@.len(),
    ensures
        no_tokens(old(c).bytes()) ==> r is Ok && final(vm).ops@ == old(vm).ops@ + seq![
            Op::PushStringLiteral { start: 0, len: 0 },
            Op::Return,
        ] && final(vm).texts@ == old(vm).texts@,
        no_tokens(old(c).bytes()) ==> r is Ok && r->Ok_0.ops_len == old(vm).ops@.len(),
        lone_call_source(old(c).bytes(), *old(commands)) ==> r is Ok && final(vm).ops@ == old(
            vm,
        ).ops@ + lone_call_code(old(c).bytes(), *old(commands)) + seq![
            Op::Pop,
            Op::PushStringLiteral { start: 0, len: 0 },
            Op::Return,
        ] && final(vm).texts@ == old(vm).texts@ && r->Ok_0.ops_len == old(vm).ops@.len(),
        unknown_first_command(old(c).bytes(), *old(commands)) ==> r is Err && r->Err_0.kind
            == CommandErrorKind::NoSuchCommand && r->Err_0.position == first_token(old(c).bytes()).position,
        redefining_first_macro(old(c).bytes(), *old(commands)) ==> r is Err && r->Err_0.kind
            == CommandErrorKind::CommandAlreadyExists && r->Err_0.position == token_after(
            old(c).bytes(),
            first_token(old(c).bytes()).end as int,
        ).position,
        return_literal_source(old(c).bytes()) && old(vm).texts@.len() <= 0xffff ==> r is Ok
            && r->Ok_0.ops_len == old(vm).ops@.len() && final(vm).ops@ == old(vm).ops@ + seq![
            relocated(
                Op::PushStringLiteral { start: 0, len: returned_text(old(c).bytes()).len() as u8 },
                old(vm).texts@.len() as int,
            ),
            Op::Return,
            Op::PushStringLiteral { start: 0, len: 0 },
            Op::Return,
        ] && final(vm).texts@ == old(vm).texts@ + returned_text(old(c).bytes()),
        vm_grew(final(vm), old(vm)),
        final(commands).builtin_commands == old(commands).builtin_commands,
        final(commands).request_commands == old(commands).request_commands,
        extends(final(commands).macro_commands@, old(commands).macro_commands@),
        match r {
            Ok(d) => {
                &&& final(vm).ops@.len() == final(vm).op_locations@.len()
                &&& old(vm).ops@.len() <= d.ops_len < final(vm).ops@.len()
                &&& old(vm).texts@.len() <= d.texts_len <= final(vm).texts@.len()
                &&& final(vm).ops@.last() == Op::Return
                &&& forall|i: int|
                    old(commands).macro_commands@.len() <= i < final(commands).macro_commands@.len()
                        ==> body_in(
                        #[trigger] final(commands).macro_commands@[i],
                        final(vm).ops@.subrange(0, d.ops_len as int),
                        old(vm).ops@.len() as int,
                    )
            },
            Err(_) => true,
        },
{
    c.next_token()?;
    while c.previous_token.kind != CommandTokenKind::EndOfSource
        invariant
            c.wf(vm),
            !c.in_macro,
            vm_grew(vm, old(vm)),
            extends(c.top_ops@, old(c).top_ops@),
            final_commands_ok(commands, old(commands)),
            forall|i: int|
                old(commands).macro_commands@.len() <= i < commands.macro_commands@.len() ==> body_in(
                    #[trigger] commands.macro_commands@[i],
                    vm.ops@,
                    old(vm).ops@.len() as int,
                ),
            c.tokenizer.source == old(c).tokenizer.source,
            no_tokens(c.bytes()) ==> {
                &&& c.previous_token.kind == CommandTokenKind::EndOfSource
                &&& c.top_ops@.len() == 0
                &&& c.top_texts@.len() == 0
                &&& *vm == *old(vm)
            },
            unknown_first_command(c.bytes(), *old(commands)) || redefining_first_macro(
                c.bytes(),
                *old(commands),
            ) ==> c.previous_token == first_token(c.bytes()) && *commands == *old(commands),
            return_literal_source(c.bytes()) ==> {
                &&& *vm == *old(vm)
                &&& (c.previous_token == first_token(c.bytes()) && c.top_ops@.len() == 0
                    && c.top_texts@.len() == 0) || (c.previous_token.kind
                    == CommandTokenKind::EndOfSource && c.top_ops@ == seq![
                    Op::PushStringLiteral { start: 0, len: returned_text(c.bytes()).len() as u8 },
                    Op::Return,
                ] && c.top_texts@ == returned_text(c.bytes()))
            },
            lone_call_source(c.bytes(), *old(commands)) ==> {
                &&& *commands == *old(commands)
                &&& *vm == *old(vm)
                &&& c.top_texts@.len() == 0
                &&& (c.previous_token == first_token(c.bytes()) && c.top_ops@.len() == 0) || (
                c.previous_token.kind == CommandTokenKind::EndOfSource && c.top_ops@
                    == lone_call_code(c.bytes(), *old(commands)) + seq![Op::Pop])
            },
        decreases c.remaining(),
    {
        proof {
            assert(MACRO_KEYWORD@ =~= seq![0x6du8, 0x61u8, 0x63u8, 0x72u8, 0x6fu8]);
        }
        let ghost top_before = c.top_ops@;
        let ghost texts_before = c.top_texts@;
        proof {
            assert(RETURN_KEYWORD@ =~= seq![0x72u8, 0x65u8, 0x74u8, 0x75u8, 0x72u8, 0x6eu8]);
        }
        if c.previous_token.kind == CommandTokenKind::Literal && c.previous_token_is(&MACRO_KEYWORD) {
            let ghost ops_before = vm.ops@;
            let ghost macros_before = commands.macro_commands@;
            macro_definition(c, commands, vm, depth)?;
            assert forall|i: int|
                old(commands).macro_commands@.len() <= i < commands.macro_commands@.len() implies body_in(
                    #[trigger] commands.macro_commands@[i],
                    vm.ops@,
                    old(vm).ops@.len() as int,
                ) by {
                if i < macros_before.len() {
                    assert(commands.macro_commands@[i] == macros_before[i]);
                    let m = macros_before[i];
                    assert(vm.ops@[m.op_end_index - 1] == ops_before[m.op_end_index - 1]);
                }
            }
        } else {
            statement(c, commands, vm, depth)?;
            proof {
                if return_literal_source(c.bytes()) {
                    assert(top_before =~= Seq::<Op>::empty());
                    assert(texts_before =~= Seq::<u8>::empty());
                    assert(c.top_ops@ =~= seq![
                        Op::PushStringLiteral { start: 0, len: returned_text(c.bytes()).len() as u8 },
                        Op::Return,
                    ]);
                    assert(c.top_texts@ =~= returned_text(c.bytes()));
                }
                if lone_call_source(c.bytes(), *old(commands)) {
                    assert(top_before =~= Seq::<Op>::empty());
                    assert(c.top_ops@ =~= lone_call_code(c.bytes(), *old(commands)) + seq![Op::Pop]);
                }
            }
        }
    }
    let position = c.previous_token.position;
    c.emit(vm, Op::PushStringLiteral { start: 0, len: 0 }, position);
    c.emit(vm, Op::Return, position);
    let definitions = Definitions { ops_len: vm.ops.len(), texts_len: vm.texts.len() };
    assert(c.top_ops@[c.top_ops@.len() - 1] == Op::Return);
    proof {
        if no_tokens(c.bytes()) {
            assert(c.top_ops@ =~= seq![Op::PushStringLiteral { start: 0, len: 0 }, Op::Return]);
            assert(c.top_texts@ =~= Seq::<u8>::empty());
            assert(literals_are_empty(c.top_ops@));
        }
        if return_literal_source(c.bytes()) && vm.texts@.len() <= 0xffff {
            let l = returned_text(c.bytes()).len() as u8;
            assert(c.top_ops@ =~= seq![
                Op::PushStringLiteral { start: 0, len: l },
                Op::Return,
                Op::PushStringLiteral { start: 0, len: 0 },
                Op::Return,
            ]);
            assert(fits_at(c.top_ops@, vm.texts@.len() as int)) by {
                assert forall|j: int|
                    0 <= j < c.top_ops@.len() && (#[trigger] c.top_ops@[j]) is PushStringLiteral
                        && c.top_ops@[j]->PushStringLiteral_len > 0 implies vm.texts@.len()
                        + c.top_ops@[j]->PushStringLiteral_start <= 0xffff by {
                    assert(j == 0);
                }
            }
        }
        if lone_call_source(c.bytes(), *old(commands)) {
            let code = lone_call_code(c.bytes(), *old(commands));
            assert(c.top_ops@ =~= code + seq![Op::Pop, Op::PushStringLiteral { start: 0, len: 0 }, Op::Return]);
            assert forall|j: int| 0 <= j < c.top_ops@.len() implies !((#[trigger] c.top_ops@[j]) is PushStringLiteral && c.top_ops@[j]->PushStringLiteral_len > 0) by {
                if j < code.len() {
                    assert(c.top_ops@[j] == code[j]);
                }
            }
            assert(c.top_texts@ =~= Seq::<u8>::empty());
        }
    }
    let ghost before = vm.ops@.len();
    let ghost prelude = vm.ops@;
    let ghost texts_before = vm.texts@;
    append_top_level(c, vm)?;
    proof {
        if no_tokens(c.bytes()) || lone_call_source(c.bytes(), *old(commands)) {
            assert(vm.texts@ =~= texts_before);
        }
        if return_literal_source(c.bytes()) && old(vm).texts@.len() <= 0xffff {
            assert(vm.ops@ =~= prelude + seq![
                relocated(
                    Op::PushStringLiteral { start: 0, len: returned_text(c.bytes()).len() as u8 },
                    old(vm).texts@.len() as int,
                ),
                Op::Return,
                Op::PushStringLiteral { start: 0, len: 0 },
                Op::Return,
            ]);
        }
    }
    assert(vm.ops@.subrange(0, definitions.ops_len as int) =~= prelude);
    assert(vm.ops@[before + c.top_ops@.len() - 1] == Op::Return);
    Ok(definitions)
}

/// The source holds no token: only spaces, tabs and carriage returns.
pub open spec fn no_tokens(b: Seq<u8>) -> bool {
    crate::command::skip_blanks(b, 0) >= b.len()
}

/// What compiling may do to the command collection: add macros.
pub open spec fn final_commands_ok(new: &CommandCollection, old: &CommandCollection) -> bool {
    &&& new.builtin_commands == old.builtin_commands
    &&& new.request_commands == old.request_commands
    &&& extends(new.macro_commands@, old.macro_commands@)
}

} // verus!
