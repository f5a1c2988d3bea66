use vstd::prelude::*;
use vstd::string::{StrSliceExecFns, StringSliceAdditionalSpecFns};

use crate::buffer_position::BufferPosition;
use crate::bytecode::{find_command, lookup, BuiltinCommand, Op, CommandCollection, CommandSource, VirtualMachine};
use crate::command::{CommandError, CommandErrorKind, SourcePathHandle};
use crate::compiler::compile;
use vstd::string::StringExecFns;

use crate::text::str_from_utf8;
use crate::vm::{bounded, execute, value_text, CommandArgs, CommandHost, CommandOperation};

verus! {

pub const HISTORY_CAPACITY: usize = 10;

/// What a builtin call needs to read its arguments from the machine.
#[derive(Debug, Clone, Copy, PartialEq, Eq, Structural)]
pub struct CommandArgsBuilder {
    pub stack_index: u32,
    pub bang: bool,
}

impl CommandArgsBuilder {
    pub fn with<'a>(&self, commands: &'a CommandManager) -> (r: CommandArgs<'a>)
        ensures
            r.texts@ == commands.virtual_machine.texts@,
            r.values@ == commands.virtual_machine.value_stack@,
            r.stack_index == self.stack_index as usize,
            r.bang == self.bang,
    {
        CommandArgs::new(
            commands.virtual_machine.texts.as_slice(),
            commands.virtual_machine.value_stack.as_slice(),
            self.stack_index as usize,
            self.bang,
        )
    }
}

/// The paths that sources were read from; handle 0 is no path.
pub struct SourcePathCollection {
    pub paths: Vec<String>,
}

impl SourcePathCollection {
    pub fn new() -> (r: SourcePathCollection)
        ensures
            r.paths@.len() == 1,
            r.paths@[0]@ == Seq::<char>::empty(),
    {
        let mut paths: Vec<String> = Vec::new();
        paths.push(String::new());
        SourcePathCollection { paths }
    }

    /// The path of `handle`; empty for a handle that was not given out.
    pub fn get(&self, handle: SourcePathHandle) -> (r: &str)
        ensures
            (handle.0 as int) < self.paths@.len() ==> r@ == self.paths@[handle.0 as int]@,
    {
        let i = handle.0 as usize;
        if i < self.paths.len() {
            self.paths[i].as_str()
        } else {
            ""
        }
    }

    pub fn add(&mut self, path: &str) -> (r: SourcePathHandle)
        requires
            old(self).paths@.len() < u32::MAX,
        ensures
            final(self).paths@.len() == old(self).paths@.len() + 1,
            r.0 == old(self).paths@.len(),
            final(self).paths@[r.0 as int]@ == path@,
            forall|i: int| 0 <= i < old(self).paths@.len() ==> final(self).paths@[i] == old(self).paths@[i],
    {
        let handle = SourcePathHandle(self.paths.len() as u32);
        self.paths.push(path.to_owned());
        handle
    }
}

/// The collection has every macro it had, and maybe more.
pub open spec fn extends_macros(new: &CommandCollection, old: &CommandCollection) -> bool {
    crate::compiler::extends(new.macro_commands@, old.macro_commands@)
}

pub open spec fn is_ascii_whitespace(c: char) -> bool {
    c == ' ' || c == '\t' || c == '\n' || c == '\x0c' || c == '\r'
}

/// The history after `entry` is offered to it: empty entries, entries that
/// start with whitespace and a repeat of the latest entry are not added; past
/// the capacity the oldest entry is dropped.
pub open spec fn history_after_add(h: Seq<Seq<char>>, entry: Seq<char>) -> Seq<Seq<char>> {
    if entry.len() == 0 || is_ascii_whitespace(entry[0]) || (h.len() > 0 && h.last() == entry) {
        h
    } else if h.len() >= HISTORY_CAPACITY {
        h.drop_first().push(entry)
    } else {
        h.push(entry)
    }
}

/// What an evaluation leaves behind. On failure: the code, texts, macros,
/// values and frames from before, and no output. On success: no frame; with
/// no operation for the host, a single value whose text is the output.
/// A source that is one call, without arguments, of a builtin the machine
/// refuses to run: unknown, or given a bang it does not take.
pub open spec fn refused_lone_call(b: Seq<u8>, commands: CommandCollection) -> bool {
    let t = crate::compiler::first_token(b);
    let source = crate::bytecode::lookup(commands, crate::editor_utils::fnv1a(crate::compiler::call_name(b, t)))->Some_0;
    &&& crate::compiler::lone_call_source(b, commands)
    &&& source is Builtin
    &&& crate::compiler::declared_flags(commands, source) < 0xffff_ff00
    &&& crate::vm::refusal(crate::compiler::call_op(source, crate::compiler::has_bang(b, t), 0), commands) is Some
}

/// The error such a call gets.
pub open spec fn lone_call_refusal(b: Seq<u8>, commands: CommandCollection) -> CommandErrorKind {
    let t = crate::compiler::first_token(b);
    let source = crate::bytecode::lookup(commands, crate::editor_utils::fnv1a(crate::compiler::call_name(b, t)))->Some_0;
    crate::vm::refusal(crate::compiler::call_op(source, crate::compiler::has_bang(b, t), 0), commands)->Some_0
}

/// The code compiled from a lone call prepares that call and makes it.
pub proof fn lemma_lone_call_prepares(b: Seq<u8>, commands: CommandCollection, before: Seq<Op>, ops: Seq<Op>)
    requires
        crate::compiler::lone_call_source(b, commands),
        ops == before + crate::compiler::lone_call_code(b, commands) + seq![
            Op::Pop,
            Op::PushStringLiteral { start: 0, len: 0 },
            Op::Return,
        ],
    ensures
        ({
            let t = crate::compiler::first_token(b);
            let src = lookup(commands, crate::editor_utils::fnv1a(crate::compiler::call_name(b, t)))->Some_0;
            let n = crate::compiler::declared_flags(commands, src);
            &&& crate::vm::call_after_prepare(ops, before.len() as int) == before.len() + 1 + n
            &&& ops[before.len() + 1 + n] == crate::compiler::call_op(src, crate::compiler::has_bang(b, t), 0)
            &&& (src is Builtin ==> crate::vm::prepares_then_calls(ops, before.len() as int, ops.len() as int))
        }),
{
    let t = crate::compiler::first_token(b);
    let src = lookup(commands, crate::editor_utils::fnv1a(crate::compiler::call_name(b, t)))->Some_0;
    let n = crate::compiler::declared_flags(commands, src);
    let code = crate::compiler::lone_call_code(b, commands);
    let start = before.len() as int;
    assert(code.len() == n + 2);
    assert(ops[start] == code[0]);
    assert forall|j: int| start + 1 <= j < start + 1 + n implies ops[j] == (Op::PushStringLiteral { start: 0, len: 0 }) by {
        assert(ops[j] == code[j - start]);
    }
    assert(ops[start + 1 + n] == code[n + 1]);
    crate::vm::lemma_pad_run_exact(ops, start + 1, n);
}

pub open spec fn evaluated(
    old: &CommandManager,
    new: &CommandManager,
    source: Seq<u8>,
    output: Seq<char>,
    r: Result<Option<CommandOperation>, CommandError>,
) -> bool {
    &&& (crate::compiler::no_tokens(source) && source.len() < u32::MAX ==> r == Ok::<
        Option<CommandOperation>,
        CommandError,
    >(None) && output.len() == 0)
    &&& (crate::compiler::return_literal_source(source) && source.len() < u32::MAX
        && old.definitions_texts_len <= 0xffff && vstd::utf8::valid_utf8(
        crate::compiler::returned_text(source),
    ) ==> r == Ok::<Option<CommandOperation>, CommandError>(None) && vstd::utf8::encode_utf8(output)
        == crate::compiler::returned_text(source))
    &&& (refused_lone_call(source, old.commands) && source.len() < u32::MAX ==> r is Err
        && r->Err_0.kind == lone_call_refusal(source, old.commands))
    &&& (new.commands.builtin_commands == old.commands.builtin_commands)
    &&& (new.commands.request_commands == old.commands.request_commands)
    &&& (new.history == old.history)
    &&& (r.is_ok() ==> {
                &&& new.virtual_machine.frames@.len() == 0
                &&& new.virtual_machine.prepared_frames@.len() == 0
            })
    &&& (r == Ok::<Option<CommandOperation>, CommandError>(None) ==> {
                &&& new.virtual_machine.value_stack@.len() == 1
                &&& vstd::utf8::valid_utf8(
                    value_text(
                        new.virtual_machine.texts@,
                        new.virtual_machine.value_stack@[0],
                    ),
                ) ==> vstd::utf8::encode_utf8(output) == value_text(
                    new.virtual_machine.texts@,
                    new.virtual_machine.value_stack@[0],
                )
            })
    &&& (r.is_ok() ==> extends_macros(&new.commands, &old.commands))
    &&& (r.is_err() ==> {
                &&& new.virtual_machine.value_stack@.len() == 0
                &&& new.virtual_machine.frames@.len() == 0
                &&& new.virtual_machine.prepared_frames@.len() == 0
                &&& new.virtual_machine.ops@ == old.virtual_machine.ops@
                &&& new.virtual_machine.texts@ == old.virtual_machine.texts@.subrange(
                    0,
                    old.definitions_texts_len as int,
                )
                &&& new.commands.macro_commands@ == old.commands.macro_commands@
                &&& output.len() == 0
            })
}

/// Owns the commands, the virtual machine, the source paths and the history.
pub struct CommandManager {
    pub commands: CommandCollection,
    pub virtual_machine: VirtualMachine,
    pub paths: SourcePathCollection,
    pub history: std::collections::VecDeque<String>,
    /// Where the texts of the definitions end in the arena.
    pub definitions_texts_len: usize,
}

impl CommandManager {
    pub open spec fn history_view(&self) -> Seq<Seq<char>> {
        self.history@.map_values(|s: String| s@)
    }

    pub open spec fn wf(&self) -> bool {
        &&& self.virtual_machine.ops@.len() == self.virtual_machine.op_locations@.len()
        &&& bounded(&self.virtual_machine)
        &&& self.definitions_texts_len <= self.virtual_machine.texts@.len()
        &&& self.history@.len() <= HISTORY_CAPACITY
    }

    pub fn new(builtin_commands: Vec<BuiltinCommand>) -> (r: CommandManager)
        ensures
            r.wf(),
            r.commands.builtin_commands@ == builtin_commands@,
            r.commands.macro_commands@.len() == 0,
            r.commands.request_commands@.len() == 0,
            r.history_view().len() == 0,
            r.virtual_machine.ops@.len() == 0,
    {
        CommandManager {
            commands: CommandCollection {
                builtin_commands,
                macro_commands: Vec::new(),
                request_commands: Vec::new(),
            },
            virtual_machine: VirtualMachine::new(),
            paths: SourcePathCollection::new(),
            history: std::collections::VecDeque::new(),
            definitions_texts_len: 0,
        }
    }

    pub fn find_command(&self, name_hash: u64) -> (r: Option<CommandSource>)
        ensures
            r == lookup(self.commands, name_hash),
    {
        find_command(&self.commands, name_hash)
    }

    pub fn builtin_commands(&self) -> (r: &[BuiltinCommand])
        ensures
            r@ == self.commands.builtin_commands@,
    {
        self.commands.builtin_commands.as_slice()
    }

    pub fn history_len(&self) -> (r: usize)
        ensures
            r == self.history_view().len(),
    {
        self.history.len()
    }

    /// Entry `index` of the history, oldest first; empty past the end.
    pub fn history_entry(&self, index: usize) -> (r: &str)
        ensures
            index < self.history_view().len() ==> r@ == self.history_view()[index as int],
            index >= self.history_view().len() ==> r@.len() == 0,
    {
        if index < self.history.len() {
            self.history[index].as_str()
        } else {
            proof {
                reveal_strlit("");
            }
            ""
        }
    }

    /// Appends `output` to the text arena, where a running builtin's output
    /// is collected; nothing is appended when the arena would outgrow its
    /// 32-bit indices.
    pub fn write_output(&mut self, output: &str)
        requires
            old(self).wf(),
        ensures
            final(self).wf(),
            final(self).virtual_machine.texts@ == old(self).virtual_machine.texts@ + output.spec_bytes()
                || final(self).virtual_machine.texts@ == old(self).virtual_machine.texts@,
            old(self).virtual_machine.texts@.len() + output.spec_bytes().len() < u32::MAX
                ==> final(self).virtual_machine.texts@ == old(self).virtual_machine.texts@
                + output.spec_bytes(),
            final(self).virtual_machine.ops == old(self).virtual_machine.ops,
            final(self).virtual_machine.op_locations == old(self).virtual_machine.op_locations,
            final(self).virtual_machine.value_stack == old(self).virtual_machine.value_stack,
            final(self).virtual_machine.frames == old(self).virtual_machine.frames,
            final(self).virtual_machine.prepared_frames == old(self).virtual_machine.prepared_frames,
            final(self).commands == old(self).commands,
            final(self).history == old(self).history,
    {
        let bytes = output.as_bytes();
        if bytes.len() < 0xffff_ffff - self.virtual_machine.texts.len() {
            self.virtual_machine.texts.extend_from_slice(bytes);
            assert(self.virtual_machine.texts@ =~= old(self).virtual_machine.texts@ + output.spec_bytes());
        }
    }

    /// Drops what an evaluation added: code, texts and macros past the marks,
    /// and every value and frame.
    fn roll_back(&mut self, ops_len: usize, texts_len: usize, macros_len: usize)
        requires
            ops_len <= old(self).virtual_machine.op_locations@.len(),
            texts_len < u32::MAX,
            ops_len <= old(self).virtual_machine.ops@.len(),
            texts_len <= old(self).virtual_machine.texts@.len(),
            old(self).definitions_texts_len <= texts_len,
            old(self).history@.len() <= HISTORY_CAPACITY,
        ensures
            final(self).wf(),
            final(self).virtual_machine.ops@ == old(self).virtual_machine.ops@.subrange(0, ops_len as int),
            final(self).virtual_machine.texts@ == old(self).virtual_machine.texts@.subrange(0, texts_len as int),
            final(self).virtual_machine.value_stack@.len() == 0,
            final(self).virtual_machine.frames@.len() == 0,
            final(self).virtual_machine.prepared_frames@.len() == 0,
            final(self).commands.builtin_commands == old(self).commands.builtin_commands,
            final(self).commands.request_commands == old(self).commands.request_commands,
            final(self).commands.macro_commands@ == if macros_len <= old(self).commands.macro_commands@.len() {
                old(self).commands.macro_commands@.subrange(0, macros_len as int)
            } else {
                old(self).commands.macro_commands@
            },
            final(self).history == old(self).history,
    {
        let vm = &mut self.virtual_machine;
        vm.ops.truncate(ops_len);
        vm.op_locations.truncate(ops_len);
        vm.texts.truncate(texts_len);
        vm.value_stack.clear();
        vm.frames.clear();
        vm.prepared_frames.clear();
        self.commands.macro_commands.truncate(macros_len);
        assert(self.virtual_machine.ops@ =~= old(self).virtual_machine.ops@.subrange(0, ops_len as int));
        assert(self.virtual_machine.texts@ =~= old(self).virtual_machine.texts@.subrange(0, texts_len as int));
        assert(self.commands.macro_commands@ =~= if macros_len <= old(self).commands.macro_commands@.len() {
                old(self).commands.macro_commands@.subrange(0, macros_len as int)
            } else {
                old(self).commands.macro_commands@
            });
    }

    /// Compiles and runs `source`. The macros it defines stay; its top-level
    /// code does not. On success `output` holds the program's value, the stack
    /// holds that value alone and no frame is left. On failure, code, texts,
    /// macros, values and frames are as they were before the call, and
    /// `output` is empty.
    #[verifier::rlimit(60)]
    pub fn eval<H: CommandHost>(&mut self, host: &mut H, source: &str, output: &mut String) -> (r:
        Result<Option<CommandOperation>, CommandError>)
        requires
            old(self).wf(),
        ensures
            final(self).wf(),
            evaluated(old(self), final(self), source.spec_bytes(), final(output)@, r),
            crate::compiler::no_tokens(source.spec_bytes()) && source.spec_bytes().len() < u32::MAX
                ==> r == Ok::<
                Option<CommandOperation>,
                CommandError,
            >(None) && final(output)@.len() == 0,
    {
        *output = String::new();
        let ops_len = self.virtual_machine.ops.len();
        let texts_len = self.definitions_texts_len;
        let macros_len = self.commands.macro_commands.len();
        self.roll_back(ops_len, texts_len, macros_len);
        assert(self.commands.macro_commands@ =~= old(self).commands.macro_commands@);
        assert(self.virtual_machine.ops@ =~= old(self).virtual_machine.ops@);
        if source.as_bytes().len() >= 0xffff_ffff {
            return Err(
                CommandError {
                    kind: CommandErrorKind::AstTooLong,
                    source: SourcePathHandle(0),
                    position: BufferPosition::zero(),
                },
            );
        }
        let definitions = match compile(
            source,
            SourcePathHandle(0),
            &mut self.commands,
            &mut self.virtual_machine,
        ) {
            Ok(d) => d,
            Err(e) => {
                self.roll_back(ops_len, texts_len, macros_len);
                assert(self.virtual_machine.ops@ =~= old(self).virtual_machine.ops@);
                assert(self.commands.macro_commands@ =~= old(self).commands.macro_commands@);
                assert(output@.len() == 0);
                assert(self.history == old(self).history);
                assert(self.virtual_machine.texts@ == old(self).virtual_machine.texts@.subrange(0, old(self).definitions_texts_len as int));
                assert(self.commands.builtin_commands == old(self).commands.builtin_commands);
                return Err(e);
            },
        };
        if self.virtual_machine.texts.len() >= 0xffff_ffff {
            self.roll_back(ops_len, texts_len, macros_len);
            assert(self.virtual_machine.ops@ =~= old(self).virtual_machine.ops@);
            assert(self.commands.macro_commands@ =~= old(self).commands.macro_commands@);
            assert(output@.len() == 0);
            assert(self.history == old(self).history);
            assert(self.virtual_machine.texts@ == old(self).virtual_machine.texts@.subrange(0, old(self).definitions_texts_len as int));
            assert(self.commands.builtin_commands == old(self).commands.builtin_commands);
            return Err(
                CommandError {
                    kind: CommandErrorKind::AstTooLong,
                    source: SourcePathHandle(0),
                    position: BufferPosition::zero(),
                },
            );
        }
        proof {
            let b = source.spec_bytes();
            if crate::compiler::return_literal_source(b) && old(self).definitions_texts_len <= 0xffff {
                let ops = self.virtual_machine.ops@;
                let start = definitions.ops_len as int;
                let text = crate::compiler::returned_text(b);
                let base = old(self).definitions_texts_len as int;
                assert(self.virtual_machine.texts@ == old(self).virtual_machine.texts@.subrange(0, base) + text);
                assert(crate::vm::pushes_then_returns(ops, start, ops.len() as int));
                assert(crate::vm::value_text(self.virtual_machine.texts@, crate::vm::literal_value(ops[start])) =~= text);
            }
            if refused_lone_call(source.spec_bytes(), old(self).commands) {
                lemma_lone_call_prepares(
                    source.spec_bytes(),
                    self.commands,
                    old(self).virtual_machine.ops@,
                    self.virtual_machine.ops@,
                );
            }
        }
        let result = execute(
            &mut self.virtual_machine,
            &self.commands,
            host,
            definitions.ops_len,
        );
        match result {
            Err(e) => {
                self.roll_back(ops_len, texts_len, macros_len);
                assert(self.virtual_machine.ops@ =~= old(self).virtual_machine.ops@);
                assert(self.commands.macro_commands@ =~= old(self).commands.macro_commands@);
                assert(output@.len() == 0);
                assert(self.history == old(self).history);
                assert(self.virtual_machine.texts@ == old(self).virtual_machine.texts@.subrange(0, old(self).definitions_texts_len as int));
                assert(self.commands.builtin_commands == old(self).commands.builtin_commands);
                Err(e)
            },
            Ok(Some(operation)) => {
                let vm = &mut self.virtual_machine;
                vm.ops.truncate(definitions.ops_len);
                vm.op_locations.truncate(definitions.ops_len);
                if definitions.texts_len <= vm.texts.len() {
                    vm.texts.truncate(definitions.texts_len);
                    self.definitions_texts_len = definitions.texts_len;
                } else {
                    self.definitions_texts_len = vm.texts.len();
                }
                vm.value_stack.clear();
                Ok(Some(operation))
            },
            Ok(None) => {
                let vm = &mut self.virtual_machine;
                if definitions.texts_len <= vm.texts.len() {
                    crate::vm::return_from_frame(vm, 0, definitions.texts_len);
                }
                let value = vm.value_stack[0];
                let start = value.start as usize;
                let end = value.end as usize;
                proof {
                    assert(vstd::utf8::encode_utf8(Seq::<char>::empty()) =~= Seq::<u8>::empty());
                }
                if start < end && end <= vm.texts.len() {
                    if let Some(text) = str_from_utf8(
                        vstd::slice::slice_subrange(vm.texts.as_slice(), start, end),
                    ) {
                        output.append(text);
                    }
                } else {
                    assert(value_text(vm.texts@, value) =~= Seq::<u8>::empty());
                }
                vm.ops.truncate(definitions.ops_len);
                vm.op_locations.truncate(definitions.ops_len);
                self.definitions_texts_len = if definitions.texts_len <= vm.texts.len() {
                    definitions.texts_len
                } else {
                    vm.texts.len()
                };
                Ok(None)
            },
        }
    }

    pub fn add_to_history(&mut self, entry: &str)
        requires
            old(self).history@.len() <= HISTORY_CAPACITY,
        ensures
            final(self).history_view() == history_after_add(old(self).history_view(), entry@),
            final(self).history@.len() <= HISTORY_CAPACITY,
            final(self).commands == old(self).commands,
            final(self).virtual_machine == old(self).virtual_machine,
            final(self).definitions_texts_len == old(self).definitions_texts_len,
            final(self).paths == old(self).paths,
    {
        let ghost h = self.history_view();
        if entry.unicode_len() == 0 {
            return;
        }
        let first = entry.get_char(0);
        if first == ' ' || first == '\t' || first == '\n' || first == '\x0c' || first == '\r' {
            return;
        }
        let n = self.history.len();
        if n > 0 {
            let owned = entry.to_owned();
            if self.history[n - 1] == owned {
                return;
            }
        }
        if n >= HISTORY_CAPACITY {
            self.history.pop_front();
            assert(self.history@.map_values(|s: String| s@) =~= h.drop_first());
        }
        let ghost before = self.history@;
        self.history.push_back(entry.to_owned());
        proof {
            assert(self.history@.map_values(|s: String| s@) =~= before.map_values(|s: String| s@).push(entry@));
        }
    }
}

} // verus!
