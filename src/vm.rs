use vstd::prelude::*;
use vstd::string::StringSliceAdditionalSpecFns;

use crate::buffer_position::BufferPosition;
use crate::bytecode::{CommandCollection, Op, SourceLocation, StackFrame, StackValue, VirtualMachine};
use crate::command::{CommandError, CommandErrorKind, SourcePathHandle};
use crate::text::str_from_utf8;

verus! {

#[derive(Debug, Clone, Copy, PartialEq, Eq, Structural)]
pub enum CommandOperation {
    Suspend,
    Quit,
    QuitAll,
}

/// The text a stack value stands for: its range of the arena, or nothing when
/// the range is not one.
pub open spec fn value_text(texts: Seq<u8>, v: StackValue) -> Seq<u8> {
    if v.start <= v.end && v.end <= texts.len() {
        texts.subrange(v.start as int, v.end as int)
    } else {
        seq![]
    }
}

/// The bytes an argument is read as: the value's text when it is UTF-8,
/// otherwise nothing.
pub open spec fn arg_bytes(texts: Seq<u8>, v: StackValue) -> Seq<u8> {
    if vstd::utf8::valid_utf8(value_text(texts, v)) {
        value_text(texts, v)
    } else {
        seq![]
    }
}

/// The arguments of a builtin call: the values on the stack from the call's
/// frame on, flags first, then positional arguments.
pub struct CommandArgs<'a> {
    pub texts: &'a [u8],
    pub values: &'a [StackValue],
    pub stack_index: usize,
    pub bang: bool,
}

impl<'a> CommandArgs<'a> {
    pub open spec fn index(&self) -> int {
        self.stack_index as int
    }

    pub open spec fn remaining(&self) -> int {
        if self.stack_index < self.values@.len() {
            self.values@.len() - self.stack_index
        } else {
            0
        }
    }

    pub open spec fn text_at(&self, i: int) -> Seq<u8> {
        value_text(self.texts@, self.values@[i])
    }

    pub fn new(texts: &'a [u8], values: &'a [StackValue], stack_index: usize, bang: bool) -> (r:
        CommandArgs<'a>)
        ensures
            r.texts@ == texts@ && r.values@ == values@ && r.stack_index == stack_index && r.bang
                == bang,
    {
        CommandArgs { texts, values, stack_index, bang }
    }

    fn text_of(&self, v: StackValue) -> (r: &'a str)
        ensures
            r.spec_bytes() == arg_bytes(self.texts@, v),
    {
        proof {
            assert(vstd::utf8::encode_utf8(seq![]) =~= seq![]);
            vstd::utf8::encode_utf8_valid_utf8(seq![]);
        }
        let start = v.start as usize;
        let end = v.end as usize;
        let bytes = if start <= end && end <= self.texts.len() {
            vstd::slice::slice_subrange(self.texts, start, end)
        } else {
            vstd::slice::slice_subrange(self.texts, 0, 0)
        };
        assert(bytes@ == value_text(self.texts@, v) || bytes@ =~= Seq::<u8>::empty());
        match str_from_utf8(bytes) {
            Some(s) => s,
            None => {
                let empty = vstd::slice::slice_subrange(self.texts, 0, 0);
                assert(empty@ =~= Seq::<u8>::empty());
                match str_from_utf8(empty) {
                    Some(s) => s,
                    None => "",
                }
            },
        }
    }

    /// The next argument, if any is left.
    pub fn try_next(&mut self) -> (r: Option<&'a str>)
        ensures
            final(self).texts == old(self).texts,
            final(self).values == old(self).values,
            final(self).bang == old(self).bang,
            old(self).remaining() == 0 ==> r.is_none() && *final(self) == *old(self),
            old(self).remaining() > 0 ==> {
                &&& r.is_some()
                &&& final(self).stack_index == old(self).stack_index + 1
                &&& r.unwrap().spec_bytes() == arg_bytes(old(self).texts@, old(self).values@[old(self).index()])
            },
    {
        if self.stack_index < self.values.len() {
            let v = self.values[self.stack_index];
            self.stack_index += 1;
            Some(self.text_of(v))
        } else {
            None
        }
    }

    /// The next argument; `TooFewArguments` when none is left.
    pub fn next(&mut self) -> (r: Result<&'a str, CommandErrorKind>)
        ensures
            old(self).remaining() == 0 <==> r == Err::<&'a str, CommandErrorKind>(
                CommandErrorKind::TooFewArguments,
            ),
            old(self).remaining() > 0 ==> final(self).stack_index == old(self).stack_index + 1,
            old(self).remaining() > 0 ==> r is Ok && r->Ok_0.spec_bytes() == arg_bytes(
                old(self).texts@,
                old(self).values@[old(self).index()],
            ),
    {
        match self.try_next() {
            Some(text) => Ok(text),
            None => Err(CommandErrorKind::TooFewArguments),
        }
    }

    /// `TooManyArguments` when an argument is left.
    pub fn assert_empty(&mut self) -> (r: Result<(), CommandErrorKind>)
        ensures
            old(self).remaining() == 0 <==> r.is_ok(),
            old(self).remaining() > 0 ==> r == Err::<(), CommandErrorKind>(
                CommandErrorKind::TooManyArguments,
            ),
    {
        match self.try_next() {
            Some(_) => Err(CommandErrorKind::TooManyArguments),
            None => Ok(()),
        }
    }

    /// Reads the values of the first `count` flags (empty where the stack ends
    /// first).
    pub fn get_flags(&mut self, count: usize) -> (r: Vec<&'a str>)
        ensures
            r@.len() == count,
            final(self).stack_index == if old(self).stack_index >= old(self).values@.len() {
                old(self).stack_index as int
            } else if old(self).stack_index + count <= old(self).values@.len() {
                old(self).stack_index + count
            } else {
                old(self).values@.len() as int
            },
            final(self).texts == old(self).texts,
            final(self).values == old(self).values,
            final(self).bang == old(self).bang,
            forall|k: int|
                0 <= k < count ==> (#[trigger] r@[k]).spec_bytes() == if old(self).stack_index + k
                    < old(self).values@.len() {
                    arg_bytes(old(self).texts@, old(self).values@[old(self).stack_index + k])
                } else {
                    Seq::<u8>::empty()
                },
    {
        let mut flags: Vec<&'a str> = Vec::new();
        let mut i: usize = 0;
        proof {
            assert(vstd::utf8::encode_utf8(seq![]) =~= seq![]);
        }
        let empty: &'a str = "";
        proof {
            reveal_strlit("");
        }
        assert(empty.spec_bytes() =~= Seq::<u8>::empty());
        while i < count
            invariant
                i <= count,
                flags@.len() == i,
                empty.spec_bytes() == Seq::<u8>::empty(),
                self.stack_index == if old(self).stack_index >= old(self).values@.len() {
                    old(self).stack_index as int
                } else if old(self).stack_index + i <= old(self).values@.len() {
                    old(self).stack_index + i
                } else {
                    old(self).values@.len() as int
                },
                self.texts == old(self).texts,
                self.values == old(self).values,
                self.bang == old(self).bang,
                forall|k: int|
                    0 <= k < i ==> (#[trigger] flags@[k]).spec_bytes() == if old(self).stack_index + k
                        < old(self).values@.len() {
                        arg_bytes(old(self).texts@, old(self).values@[old(self).stack_index + k])
                    } else {
                        Seq::<u8>::empty()
                    },
            decreases count - i,
        {
            match self.try_next() {
                Some(text) => flags.push(text),
                None => flags.push(empty),
            }
            i += 1;
        }
        flags
    }
}

/// The host side of builtin and request commands. Verified code makes no
/// assumption on what an implementation does or returns.
pub trait CommandHost {
    /// Runs builtin `index`; what it writes to `output` becomes the call's value.
    fn call_builtin(&mut self, index: usize, args: &mut CommandArgs, output: &mut String) -> Result<
        Option<CommandOperation>,
        CommandErrorKind,
    >;

    /// Hands request command `index` to the host, which fulfils it on its side.
    fn call_request(&mut self, index: usize);
}

} // verus!

verus! {

/// How a run of ops ended.
#[derive(Debug, Clone, Copy, PartialEq, Eq, Structural)]
pub enum Flow {
    Finished,
    Operation(CommandOperation),
}

/// No op of the code calls a builtin command.
pub open spec fn calls_no_builtin(ops: Seq<Op>) -> bool {
    forall|i: int| 0 <= i < ops.len() ==> !(#[trigger] ops[i] is CallBuiltinCommand)
}

/// Running such code can only end normally, or fail when the stack would
/// outgrow its 32-bit indices.
pub open spec fn runs_without_builtins<T>(ops: Seq<Op>, r: Result<T, CommandError>, normal: T) -> bool {
    calls_no_builtin(ops) ==> (r == Ok::<T, CommandError>(normal) || (r is Err && r->Err_0.kind
        == CommandErrorKind::AstTooLong))
}

/// How many empty literals are pushed in a row from op `i` on.
pub open spec fn pad_run(ops: Seq<Op>, i: int) -> int
    decreases ops.len() - i,
{
    if 0 <= i < ops.len() && ops[i] == (Op::PushStringLiteral { start: 0, len: 0 }) {
        1 + pad_run(ops, i + 1)
    } else {
        0
    }
}

pub proof fn lemma_pad_run(ops: Seq<Op>, i: int)
    requires
        0 <= i,
    ensures
        0 <= pad_run(ops, i),
        forall|j: int| i <= j < i + pad_run(ops, i) ==> ops[j] == (Op::PushStringLiteral { start: 0, len: 0 }) && j < ops.len(),
    decreases ops.len() - i,
{
    if 0 <= i < ops.len() && ops[i] == (Op::PushStringLiteral { start: 0, len: 0 }) {
        lemma_pad_run(ops, i + 1);
    }
}

/// Empty literals followed by another op make a run of exactly their number.
pub proof fn lemma_pad_run_exact(ops: Seq<Op>, i: int, n: int)
    requires
        0 <= i,
        0 <= n,
        i + n < ops.len(),
        forall|j: int| i <= j < i + n ==> ops[j] == (Op::PushStringLiteral { start: 0, len: 0 }),
        ops[i + n] != (Op::PushStringLiteral { start: 0, len: 0 }),
    ensures
        pad_run(ops, i) == n,
    decreases n,
{
    if n > 0 {
        lemma_pad_run_exact(ops, i + 1, n - 1);
    }
}

/// Where the builtin call that follows a `PrepareStackFrame` at `start` and
/// its empty flag literals stands.
pub open spec fn call_after_prepare(ops: Seq<Op>, start: int) -> int {
    start + 1 + pad_run(ops, start + 1)
}

/// The code at `start` prepares a frame, pushes empty literals, then calls a
/// builtin, all within `limit`.
pub open spec fn prepares_then_calls(ops: Seq<Op>, start: int, limit: int) -> bool {
    &&& 0 <= start
    &&& call_after_prepare(ops, start) < limit <= ops.len()
    &&& ops[start] == Op::PrepareStackFrame
    &&& ops[call_after_prepare(ops, start)] is CallBuiltinCommand
}

/// The error a builtin call op raises before the builtin runs, if any.
pub open spec fn refusal(op: Op, commands: CommandCollection) -> Option<CommandErrorKind> {
    let i = op->CallBuiltinCommand_index as int;
    if i >= commands.builtin_commands@.len() {
        Some(CommandErrorKind::NoSuchCommand)
    } else if op->CallBuiltinCommand_bang && !commands.builtin_commands@[i].accepts_bang {
        Some(CommandErrorKind::CommandDoesNotAcceptBang)
    } else {
        None
    }
}

/// Running code that prepares a call the machine refuses fails with that
/// refusal, located at the call op.
pub open spec fn refused_call(
    vm: &VirtualMachine,
    commands: CommandCollection,
    start: int,
    limit: int,
    r_is_err: bool,
    kind: CommandErrorKind,
    location: (SourcePathHandle, BufferPosition),
) -> bool {
    let k = call_after_prepare(vm.ops@, start);
    prepares_then_calls(vm.ops@, start, limit) && vm.value_stack@.len() + (k - start) < 0xffff_fff0
        && refusal(vm.ops@[k], commands) is Some ==> {
        &&& r_is_err
        &&& kind == refusal(vm.ops@[k], commands)->Some_0
        &&& k < vm.op_locations@.len() ==> location == (vm.op_locations@[k].source, vm.op_locations@[k].position)
    }
}

/// A program that starts by preparing a call the machine refuses fails with
/// that refusal, at the call op's location.
pub open spec fn refusal_reported(
    vm: &VirtualMachine,
    commands: CommandCollection,
    start: int,
    r: Result<Option<CommandOperation>, CommandError>,
) -> bool {
    let k = call_after_prepare(vm.ops@, start);
    prepares_then_calls(vm.ops@, start, vm.ops@.len() as int) && k - start < 0xffff_fff0 && refusal(
        vm.ops@[k],
        commands,
    ) is Some ==> {
        &&& r is Err
        &&& r->Err_0.kind == refusal(vm.ops@[k], commands)->Some_0
        &&& k < vm.op_locations@.len() ==> r->Err_0.source == vm.op_locations@[k].source
            && r->Err_0.position == vm.op_locations@[k].position
    }
}

/// The code at `start` pushes a literal, then returns, within `limit`.
pub open spec fn pushes_then_returns(ops: Seq<Op>, start: int, limit: int) -> bool {
    &&& 0 <= start && start + 1 < limit <= ops.len()
    &&& ops[start] is PushStringLiteral
    &&& ops[start + 1] == Op::Return
}

/// The value a `PushStringLiteral` op pushes.
pub open spec fn literal_value(op: Op) -> StackValue {
    StackValue {
        start: op->PushStringLiteral_start as u32,
        end: (op->PushStringLiteral_start + op->PushStringLiteral_len) as u32,
    }
}

/// The machine's sizes fit the 32-bit indices of values and frames.
pub open spec fn bounded(vm: &VirtualMachine) -> bool {
    &&& vm.texts@.len() < u32::MAX
    &&& vm.value_stack@.len() < u32::MAX
}

fn location_at(vm: &VirtualMachine, op_index: usize) -> (r: SourceLocation)
    ensures
        op_index < vm.op_locations@.len() ==> r == vm.op_locations@[op_index as int],
{
    if op_index < vm.op_locations.len() {
        vm.op_locations[op_index]
    } else {
        SourceLocation { source: SourcePathHandle(0), position: BufferPosition::zero() }
    }
}

fn error_at(vm: &VirtualMachine, op_index: usize, kind: CommandErrorKind) -> (r: CommandError)
    ensures
        r.kind == kind,
        op_index < vm.op_locations@.len() ==> r.source == vm.op_locations@[op_index as int].source
            && r.position == vm.op_locations@[op_index as int].position,
{
    let location = location_at(vm, op_index);
    CommandError { kind, source: location.source, position: location.position }
}

/// Moves the bytes `texts[start..end]` down to `to`, and cuts the arena right
/// after them.
fn move_text_down(texts: &mut Vec<u8>, to: usize, start: usize, end: usize)
    requires
        to <= start <= end <= old(texts)@.len(),
    ensures
        final(texts)@ == old(texts)@.subrange(0, to as int) + old(texts)@.subrange(
            start as int,
            end as int,
        ),
{
    let len = end - start;
    let mut i: usize = 0;
    while i < len
        invariant
            to <= start <= end <= old(texts)@.len(),
            len == end - start,
            i <= len,
            texts@.len() == old(texts)@.len(),
            forall|j: int| 0 <= j < to ==> texts@[j] == old(texts)@[j],
            forall|j: int| to <= j < to + i ==> texts@[j] == old(texts)@[start + j - to],
            forall|j: int| to + i <= j < texts@.len() ==> texts@[j] == old(texts)@[j],
        decreases len - i,
    {
        let x = texts[start + i];
        texts.set(to + i, x);
        i += 1;
    }
    texts.truncate(to + len);
    assert(texts@ =~= old(texts)@.subrange(0, to as int) + old(texts)@.subrange(
        start as int,
        end as int,
    ));
}

/// Ends a frame: the value on top of the stack becomes the frame's only
/// value, its text moved down to where the frame's texts began when it lies
/// above, and everything the frame added after it is dropped.
pub fn return_from_frame(vm: &mut VirtualMachine, stack_len: usize, texts_len: usize)
    requires
        bounded(old(vm)),
        old(vm).value_stack@.len() + 1 < u32::MAX,
    ensures
        bounded(final(vm)),
        final(vm).ops == old(vm).ops,
        final(vm).op_locations == old(vm).op_locations,
        final(vm).frames == old(vm).frames,
        final(vm).prepared_frames == old(vm).prepared_frames,
        final(vm).value_stack@.len() == if stack_len < old(vm).value_stack@.len() {
            stack_len + 1int
        } else {
            old(vm).value_stack@.len() + 1int
        },
        old(vm).value_stack@.len() > 0 && texts_len <= old(vm).texts@.len() ==> value_text(
            final(vm).texts@,
            final(vm).value_stack@.last(),
        ) == value_text(old(vm).texts@, old(vm).value_stack@.last()),
        texts_len <= old(vm).texts@.len() ==> final(vm).texts@.subrange(0, texts_len as int)
            == old(vm).texts@.subrange(0, texts_len as int),
        texts_len <= old(vm).texts@.len() ==> texts_len <= final(vm).texts@.len(),
{
    let value = match vm.value_stack.last() {
        Some(v) => *v,
        None => StackValue { start: 0, end: 0 },
    };
    let start = value.start as usize;
    let end = value.end as usize;
    let value = if texts_len <= start && start <= end && end <= vm.texts.len() {
        move_text_down(&mut vm.texts, texts_len, start, end);
        assert(value_text(vm.texts@, StackValue { start: texts_len as u32, end: (texts_len + (end - start)) as u32 })
            =~= value_text(old(vm).texts@, value));
        StackValue { start: texts_len as u32, end: (texts_len + (end - start)) as u32 }
    } else {
        if texts_len <= vm.texts.len() && end <= texts_len {
            vm.texts.truncate(texts_len);
            assert(value_text(vm.texts@, value) =~= value_text(old(vm).texts@, value));
        }
        value
    };
    proof {
        if texts_len <= old(vm).texts@.len() {
            assert(vm.texts@.subrange(0, texts_len as int) =~= old(vm).texts@.subrange(0, texts_len as int));
        }
    }
    if stack_len < vm.value_stack.len() {
        vm.value_stack.truncate(stack_len);
    }
    vm.value_stack.push(value);
}

} // verus!

verus! {

fn pop_prepared_frame(vm: &mut VirtualMachine) -> (r: StackFrame)
    requires
        bounded(old(vm)),
    ensures
        bounded(final(vm)),
        final(vm).ops == old(vm).ops,
        final(vm).op_locations == old(vm).op_locations,
        final(vm).texts == old(vm).texts,
        final(vm).value_stack == old(vm).value_stack,
        final(vm).frames == old(vm).frames,
{
    match vm.prepared_frames.pop() {
        Some(frame) => frame,
        None => StackFrame {
            op_index: 0,
            texts_len: vm.texts.len() as u32,
            stack_len: vm.value_stack.len() as u32,
        },
    }
}

/// Ends a call whose value is the empty text: the frame's texts and values are
/// dropped and one empty value takes their place.
fn push_empty_result(vm: &mut VirtualMachine, stack_len: usize, texts_len: usize)
    requires
        bounded(old(vm)),
        old(vm).value_stack@.len() + 1 < u32::MAX,
        texts_len <= old(vm).texts@.len(),
    ensures
        bounded(final(vm)),
        final(vm).texts@ == old(vm).texts@.subrange(0, texts_len as int),
        final(vm).ops == old(vm).ops,
        final(vm).op_locations == old(vm).op_locations,
        final(vm).frames == old(vm).frames,
        final(vm).prepared_frames == old(vm).prepared_frames,
{
    vm.texts.truncate(texts_len);
    assert(vm.texts@ =~= old(vm).texts@.subrange(0, texts_len as int));
    if stack_len < vm.value_stack.len() {
        vm.value_stack.truncate(stack_len);
    }
    vm.value_stack.push(StackValue { start: texts_len as u32, end: texts_len as u32 });
}

/// Whether no value of the window `values[base..]` reaches past `from`.
fn tail_is_free(values: &Vec<StackValue>, base: usize, from: u32) -> (r: bool) {
    let mut i = base;
    while i < values.len()
        invariant
            base <= i,
        decreases values@.len() - i,
    {
        if values[i].end > from {
            return false;
        }
        i += 1;
    }
    true
}

/// The ops that only move values: what each does to the stack, the prepared
/// frames and the arena.
pub open spec fn data_op_effect(
    op: Op,
    old_vm: &VirtualMachine,
    new_vm: &VirtualMachine,
    base: int,
    floor: int,
) -> bool {
    let stack = old_vm.value_stack@;
    let empty = StackValue { start: 0, end: 0 };
    &&& new_vm.ops == old_vm.ops
    &&& new_vm.op_locations == old_vm.op_locations
    &&& new_vm.frames == old_vm.frames
    &&& match op {
        Op::PushStringLiteral { start, len } => {
            &&& new_vm.value_stack@ == stack.push(
                StackValue { start: start as u32, end: (start + len) as u32 },
            )
            &&& new_vm.texts == old_vm.texts
            &&& new_vm.prepared_frames == old_vm.prepared_frames
        },
        Op::DuplicateAt(i) => {
            &&& new_vm.value_stack@ == stack.push(
                if 0 <= base && base + i < stack.len() {
                    stack[base + i]
                } else {
                    empty
                },
            )
            &&& new_vm.texts == old_vm.texts
            &&& new_vm.prepared_frames == old_vm.prepared_frames
        },
        Op::PrepareStackFrame => {
            &&& new_vm.prepared_frames@ == old_vm.prepared_frames@.push(
                StackFrame {
                    op_index: 0,
                    texts_len: old_vm.texts@.len() as u32,
                    stack_len: stack.len() as u32,
                },
            )
            &&& new_vm.texts == old_vm.texts
            &&& new_vm.value_stack == old_vm.value_stack
        },
        Op::PopAsFlag(i) => {
            let rest = if stack.len() > 0 {
                stack.drop_last()
            } else {
                stack
            };
            let value = if stack.len() > 0 {
                stack.last()
            } else {
                empty
            };
            let prepared = old_vm.prepared_frames@;
            let slot = if prepared.len() > 0 {
                prepared.last().stack_len + i
            } else {
                -1
            };
            &&& new_vm.value_stack@ == if 0 <= slot < rest.len() {
                rest.update(slot, value)
            } else {
                rest
            }
            &&& new_vm.texts == old_vm.texts
            &&& new_vm.prepared_frames == old_vm.prepared_frames
        },
        Op::Pop => {
            &&& new_vm.value_stack@ == if stack.len() > 0 {
                stack.drop_last()
            } else {
                stack
            }
            &&& new_vm.prepared_frames == old_vm.prepared_frames
            &&& (new_vm.texts == old_vm.texts || (stack.len() > 0 && floor <= stack.last().start
                && stack.last().end == old_vm.texts@.len() && new_vm.texts@ == old_vm.texts@.subrange(
                0,
                stack.last().start as int,
            )))
        },
        _ => false,
    }
}

pub open spec fn is_data_op(op: Op) -> bool {
    match op {
        Op::Pop | Op::PushStringLiteral { .. } | Op::DuplicateAt(_) | Op::PopAsFlag(_)
        | Op::PrepareStackFrame => true,
        _ => false,
    }
}

fn data_op(vm: &mut VirtualMachine, op: Op, base: usize, floor: usize)
    requires
        bounded(old(vm)),
        old(vm).value_stack@.len() < 0xffff_fffd,
        floor <= old(vm).texts@.len(),
        is_data_op(op),
    ensures
        bounded(final(vm)),
        data_op_effect(op, old(vm), final(vm), base as int, floor as int),
        floor <= final(vm).texts@.len(),
        final(vm).texts@.subrange(0, floor as int) == old(vm).texts@.subrange(0, floor as int),
{
    match op {
        Op::Pop => {
            if let Some(value) = vm.value_stack.pop() {
                let s = value.start as usize;
                if value.end as usize == vm.texts.len() && floor <= s && s <= vm.texts.len()
                    && tail_is_free(&vm.value_stack, base, value.start) {
                    vm.texts.truncate(s);
                    assert(vm.texts@.subrange(0, floor as int) =~= old(vm).texts@.subrange(0, floor as int));
                }
            }
        },
        Op::PushStringLiteral { start, len } => {
            vm.value_stack.push(StackValue { start: start as u32, end: start as u32 + len as u32 });
        },
        Op::DuplicateAt(i) => {
            let value = if base < vm.value_stack.len() && (i as usize) < vm.value_stack.len() - base {
                vm.value_stack[base + i as usize]
            } else {
                StackValue { start: 0, end: 0 }
            };
            vm.value_stack.push(value);
        },
        Op::PopAsFlag(i) => {
            let value = match vm.value_stack.pop() {
                Some(v) => v,
                None => StackValue { start: 0, end: 0 },
            };
            let n = vm.prepared_frames.len();
            if n > 0 {
                let slot_base = vm.prepared_frames[n - 1].stack_len as usize;
                if slot_base < vm.value_stack.len() && (i as usize) < vm.value_stack.len()
                    - slot_base {
                    vm.value_stack.set(slot_base + i as usize, value);
                }
            }
        },
        _ => {
            let frame = StackFrame {
                op_index: 0,
                texts_len: vm.texts.len() as u32,
                stack_len: vm.value_stack.len() as u32,
            };
            vm.prepared_frames.push(frame);
        },
    }
}

/// Checks a builtin call before it runs: the builtin must exist, and accept a
/// bang when the call has one.
pub fn check_builtin_call(commands: &CommandCollection, index: usize, bang: bool) -> (r: Result<
    (),
    CommandErrorKind,
>)
    ensures
        index >= commands.builtin_commands@.len() ==> r == Err::<(), CommandErrorKind>(
            CommandErrorKind::NoSuchCommand,
        ),
        index < commands.builtin_commands@.len() ==> (r == if bang
            && !commands.builtin_commands@[index as int].accepts_bang {
            Err::<(), CommandErrorKind>(CommandErrorKind::CommandDoesNotAcceptBang)
        } else {
            Ok::<(), CommandErrorKind>(())
        }),
{
    if index >= commands.builtin_commands.len() {
        return Err(CommandErrorKind::NoSuchCommand);
    }
    if bang && !commands.builtin_commands[index].accepts_bang {
        return Err(CommandErrorKind::CommandDoesNotAcceptBang);
    }
    Ok(())
}

/// The arguments a builtin call sees: the whole arena, and the values from
/// the call's frame on.
pub fn builtin_call_args<'a>(vm: &'a VirtualMachine, frame: StackFrame, bang: bool) -> (r:
    CommandArgs<'a>)
    ensures
        r.texts@ == vm.texts@,
        r.values@ == vm.value_stack@,
        r.stack_index == frame.stack_len as usize,
        r.bang == bang,
{
    CommandArgs::new(vm.texts.as_slice(), vm.value_stack.as_slice(), frame.stack_len as usize, bang)
}

/// Ends a builtin call: what the frame added to the arena and the stack is
/// dropped, the builtin's output is appended, and one value holding exactly
/// that output is pushed.
pub fn finish_builtin_call(vm: &mut VirtualMachine, stack_len: usize, texts_len: usize, out: &[u8])
    requires
        bounded(old(vm)),
        old(vm).value_stack@.len() < 0xffff_fffd,
        texts_len <= old(vm).texts@.len(),
        texts_len + out@.len() < u32::MAX,
    ensures
        bounded(final(vm)),
        final(vm).ops == old(vm).ops,
        final(vm).op_locations == old(vm).op_locations,
        final(vm).frames == old(vm).frames,
        final(vm).prepared_frames == old(vm).prepared_frames,
        final(vm).texts@ == old(vm).texts@.subrange(0, texts_len as int) + out@,
        final(vm).value_stack@ == (if stack_len < old(vm).value_stack@.len() {
            old(vm).value_stack@.subrange(0, stack_len as int)
        } else {
            old(vm).value_stack@
        }).push(StackValue { start: texts_len as u32, end: (texts_len + out@.len()) as u32 }),
        value_text(final(vm).texts@, final(vm).value_stack@.last()) == out@,
{
    vm.texts.truncate(texts_len);
    vm.texts.extend_from_slice(out);
    assert(vm.texts@ =~= old(vm).texts@.subrange(0, texts_len as int) + out@);
    if stack_len < vm.value_stack.len() {
        vm.value_stack.truncate(stack_len);
        assert(vm.value_stack@ =~= old(vm).value_stack@.subrange(0, stack_len as int));
    }
    let value = StackValue { start: texts_len as u32, end: vm.texts.len() as u32 };
    vm.value_stack.push(value);
    assert(vm.texts@.subrange(texts_len as int, vm.texts@.len() as int) =~= out@);
}

/// Where a frame's texts begin, never below the floor of the running code.
fn keep_from(frame: StackFrame, floor: usize, len: usize) -> (r: usize)
    requires
        floor <= len,
    ensures
        floor <= r <= len,
{
    let t = frame.texts_len as usize;
    if t < floor {
        floor
    } else if t > len {
        len
    } else {
        t
    }
}

fn run<H: CommandHost>(
    vm: &mut VirtualMachine,
    commands: &CommandCollection,
    host: &mut H,
    start: usize,
    limit: usize,
    base: usize,
    floor: usize,
) -> (r: Result<Flow, CommandError>)
    requires
        bounded(old(vm)),
        limit <= old(vm).ops@.len(),
        floor <= old(vm).texts@.len(),
    ensures
        bounded(final(vm)),
        final(vm).ops == old(vm).ops,
        final(vm).op_locations == old(vm).op_locations,
        floor <= final(vm).texts@.len(),
        final(vm).texts@.subrange(0, floor as int) == old(vm).texts@.subrange(0, floor as int),
        runs_without_builtins(old(vm).ops@, r, Flow::Finished),
        pushes_then_returns(old(vm).ops@, start as int, limit as int) && old(vm).value_stack@.len()
            < 0xffff_fffc ==> r == Ok::<Flow, CommandError>(Flow::Finished)
            && final(vm).value_stack@ == old(vm).value_stack@.push(
            literal_value(old(vm).ops@[start as int]),
        ) && final(vm).texts == old(vm).texts,
        refused_call(
            old(vm),
            *commands,
            start as int,
            limit as int,
            r is Err,
            r->Err_0.kind,
            (r->Err_0.source, r->Err_0.position),
        ),
    decreases limit,
{
    proof {
        lemma_pad_run(old(vm).ops@, start as int + 1);
    }
    let mut k = start;
    while k < limit
        invariant
            bounded(vm),
            vm.ops == old(vm).ops,
            vm.op_locations == old(vm).op_locations,
            limit <= vm.ops@.len(),
            floor <= vm.texts@.len(),
            vm.texts@.subrange(0, floor as int) == old(vm).texts@.subrange(0, floor as int),
            k >= start,
            pushes_then_returns(old(vm).ops@, start as int, limit as int) && old(vm).value_stack@.len()
                < 0xffff_fffc ==> (k == start && *vm == *old(vm)) || (k == start + 1
                && vm.value_stack@ == old(vm).value_stack@.push(literal_value(old(vm).ops@[start as int]))
                && vm.texts == old(vm).texts),
            ({
                let c = call_after_prepare(old(vm).ops@, start as int);
                prepares_then_calls(old(vm).ops@, start as int, limit as int)
                    && old(vm).value_stack@.len() + (c - start) < 0xffff_fff0
                    && refusal(old(vm).ops@[c], *commands) is Some ==> start <= k <= c
                    && vm.value_stack@.len() <= old(vm).value_stack@.len() + (k - start)
            }),
        decreases limit - k,
    {
        proof {
            lemma_pad_run(old(vm).ops@, start as int + 1);
        }
        let ghost texts_before = vm.texts@;
        if vm.value_stack.len() >= 0xffff_fffd {
            return Err(error_at(vm, k, CommandErrorKind::AstTooLong));
        }
        let op = vm.ops[k];
        match op {
            Op::Return => {
                return Ok(Flow::Finished);
            },
            Op::Pop | Op::PushStringLiteral { .. } | Op::DuplicateAt(_) | Op::PopAsFlag(_)
            | Op::PrepareStackFrame => {
                data_op(vm, op, base, floor);
            },
            Op::CallBuiltinCommand { index, bang, arg_count: _ } => {
                assert(vm.ops@[k as int] is CallBuiltinCommand);
                let frame = pop_prepared_frame(vm);
                let index = index as usize;
                if let Err(kind) = check_builtin_call(commands, index, bang) {
                    return Err(error_at(vm, k, kind));
                }
                let mut output = String::new();
                let result = {
                    let mut args = builtin_call_args(vm, frame, bang);
                    host.call_builtin(index, &mut args, &mut output)
                };
                match result {
                    Err(kind) => {
                        let frame = StackFrame {
                            op_index: if k <= 0xffff_ffff {
                                k as u32
                            } else {
                                0
                            },
                            texts_len: frame.texts_len,
                            stack_len: frame.stack_len,
                        };
                        vm.frames.push(frame);
                        return Err(error_at(vm, k, kind));
                    },
                    Ok(Some(operation)) => {
                        return Ok(Flow::Operation(operation));
                    },
                    Ok(None) => {},
                }
                let out = output.as_str().as_bytes();
                let texts_len = keep_from(frame, floor, vm.texts.len());
                if out.len() >= 0xffff_ffff - texts_len {
                    return Err(error_at(vm, k, CommandErrorKind::AstTooLong));
                }
                finish_builtin_call(vm, frame.stack_len as usize, texts_len, out);
                assert(vm.texts@.subrange(0, floor as int) =~= texts_before.subrange(0, floor as int));
            },
            Op::CallMacroCommand(j) => {
                let frame = pop_prepared_frame(vm);
                let keep = keep_from(frame, floor, vm.texts.len());
                let j = j as usize;
                let mut called = false;
                if j < commands.macro_commands.len() {
                    let m = commands.macro_commands[j];
                    let ms = m.op_start_index as usize;
                    let me = m.op_end_index as usize;
                    if ms <= me && me <= k {
                        let entered = StackFrame {
                            op_index: if k <= 0xffff_ffff {
                                k as u32
                            } else {
                                0
                            },
                            texts_len: frame.texts_len,
                            stack_len: frame.stack_len,
                        };
                        vm.frames.push(entered);
                        let ghost entered_texts = vm.texts@;
                        let flow = run(vm, commands, host, ms, me, frame.stack_len as usize, keep)?;
                        assert(vm.texts@.subrange(0, floor as int) =~= entered_texts.subrange(0, keep as int).subrange(0, floor as int));
                        if let Flow::Operation(_) = flow {
                            return Ok(flow);
                        }
                        vm.frames.pop();
                        if vm.value_stack.len() >= 0xffff_fffd {
                            return Err(error_at(vm, k, CommandErrorKind::AstTooLong));
                        }
                        let ghost returned_texts = vm.texts@;
                        return_from_frame(vm, frame.stack_len as usize, keep);
                        assert(vm.texts@.subrange(0, floor as int) =~= vm.texts@.subrange(0, keep as int).subrange(0, floor as int));
                        assert(returned_texts.subrange(0, floor as int) =~= returned_texts.subrange(0, keep as int).subrange(0, floor as int));
                        called = true;
                    }
                }
                if !called {
                    push_empty_result(vm, frame.stack_len as usize, keep);
                    assert(vm.texts@.subrange(0, floor as int) =~= texts_before.subrange(0, floor as int));
                }
            },
            Op::CallRequestCommand(j) => {
                let frame = pop_prepared_frame(vm);
                let keep = keep_from(frame, floor, vm.texts.len());
                host.call_request(j as usize);
                push_empty_result(vm, frame.stack_len as usize, keep);
                assert(vm.texts@.subrange(0, floor as int) =~= texts_before.subrange(0, floor as int));
            },
        }
        k += 1;
    }
    Ok(Flow::Finished)
}

/// Runs the program that starts at op `start`. When it returns normally, the
/// stack holds exactly its value and no frame is left.
pub fn execute<H: CommandHost>(
    vm: &mut VirtualMachine,
    commands: &CommandCollection,
    host: &mut H,
    start: usize,
) -> (r: Result<Option<CommandOperation>, CommandError>)
    requires
        bounded(old(vm)),
    ensures
        bounded(final(vm)),
        final(vm).ops == old(vm).ops,
        final(vm).op_locations == old(vm).op_locations,
        r == Ok::<Option<CommandOperation>, CommandError>(None) ==> {
            &&& final(vm).value_stack@.len() == 1
            &&& final(vm).frames@.len() == 0
            &&& final(vm).prepared_frames@.len() == 0
        },
        r.is_ok() ==> final(vm).frames@.len() == 0 && final(vm).prepared_frames@.len() == 0,
        old(vm).texts@.len() <= final(vm).texts@.len(),
        final(vm).texts@.subrange(0, old(vm).texts@.len() as int) == old(vm).texts@,
        runs_without_builtins(old(vm).ops@, r, None),
        pushes_then_returns(old(vm).ops@, start as int, old(vm).ops@.len() as int) ==> r == Ok::<
            Option<CommandOperation>,
            CommandError,
        >(None) && value_text(final(vm).texts@, final(vm).value_stack@[0]) == value_text(
            old(vm).texts@,
            literal_value(old(vm).ops@[start as int]),
        ),
        refusal_reported(old(vm), *commands, start as int, r),
{
    vm.value_stack.clear();
    vm.frames.clear();
    vm.prepared_frames.clear();
    let floor = vm.texts.len();
    let limit = vm.ops.len();
    let flow = run(vm, commands, host, start, limit, 0, floor);
    assert(old(vm).texts@.subrange(0, floor as int) =~= old(vm).texts@);
    let flow = flow?;
    vm.frames.clear();
    vm.prepared_frames.clear();
    match flow {
        Flow::Operation(operation) => Ok(Some(operation)),
        Flow::Finished => {
            if vm.value_stack.len() >= 0xffff_fffd {
                return Err(error_at(vm, limit, CommandErrorKind::AstTooLong));
            }
            return_from_frame(vm, 0, floor);
            assert(vm.texts@.subrange(0, floor as int) =~= old(vm).texts@);
            Ok(None)
        },
    }
}

} // verus!
