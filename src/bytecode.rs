use vstd::prelude::*;

use crate::buffer_position::BufferPosition;
use crate::command::SourcePathHandle;

verus! {

/// One instruction of the command virtual machine.
#[derive(Debug, Clone, Copy, PartialEq, Eq, Structural)]
pub enum Op {
    Return,
    Pop,
    PushStringLiteral { start: u16, len: u8 },
    DuplicateAt(u8),
    PopAsFlag(u8),
    PrepareStackFrame,
    CallBuiltinCommand { index: u8, bang: bool, arg_count: u8 },
    CallMacroCommand(u16),
    CallRequestCommand(u16),
}

/// A byte range of the text arena.
#[derive(Debug, Clone, Copy, PartialEq, Eq, Structural)]
pub struct StackValue {
    pub start: u32,
    pub end: u32,
}

#[derive(Debug, Clone, Copy, PartialEq, Eq, Structural)]
pub struct StackFrame {
    pub op_index: u32,
    pub texts_len: u32,
    pub stack_len: u32,
}

#[derive(Debug, Clone, Copy, PartialEq, Eq, Structural)]
pub struct SourceLocation {
    pub source: SourcePathHandle,
    pub position: BufferPosition,
}

#[derive(Debug)]
pub enum CompletionSource {
    Commands,
    Buffers,
    Files,
    Custom(Vec<String>),
}

/// A command whose body the host runs.
pub struct BuiltinCommand {
    pub name_hash: u64,
    pub alias_hash: u64,
    pub hidden: bool,
    pub completions: Vec<CompletionSource>,
    pub accepts_bang: bool,
    /// Flag names, without the leading `-`.
    pub flags: Vec<String>,
}

#[derive(Debug, Clone, Copy, PartialEq, Eq, Structural)]
pub struct MacroCommand {
    pub name_hash: u64,
    pub op_start_index: u32,
    pub op_end_index: u32,
    pub param_count: u8,
}

#[derive(Debug, Clone, Copy, PartialEq, Eq, Structural)]
pub struct RequestCommand {
    pub name_hash: u64,
}

pub struct CommandCollection {
    pub builtin_commands: Vec<BuiltinCommand>,
    pub macro_commands: Vec<MacroCommand>,
    pub request_commands: Vec<RequestCommand>,
}

#[derive(Debug, Clone, Copy, PartialEq, Eq, Structural)]
pub enum CommandSource {
    Builtin(usize),
    Macro(usize),
    Request(usize),
}

pub open spec fn builtin_matches(c: BuiltinCommand, name_hash: u64) -> bool {
    c.name_hash == name_hash || c.alias_hash == name_hash
}

/// Lookup by name hash: the first macro with that hash, else the first request
/// command, else the first builtin whose name or alias has it.
pub open spec fn lookup(commands: CommandCollection, name_hash: u64) -> Option<CommandSource> {
    let macros = commands.macro_commands@;
    let requests = commands.request_commands@;
    let builtins = commands.builtin_commands@;
    if exists|i: int| 0 <= i < macros.len() && macros[i].name_hash == name_hash {
        let i = choose|i: int|
            0 <= i < macros.len() && macros[i].name_hash == name_hash && forall|j: int|
                0 <= j < i ==> macros[j].name_hash != name_hash;
        Some(CommandSource::Macro(i as usize))
    } else if exists|i: int| 0 <= i < requests.len() && requests[i].name_hash == name_hash {
        let i = choose|i: int|
            0 <= i < requests.len() && requests[i].name_hash == name_hash && forall|j: int|
                0 <= j < i ==> requests[j].name_hash != name_hash;
        Some(CommandSource::Request(i as usize))
    } else if exists|i: int| 0 <= i < builtins.len() && builtin_matches(builtins[i], name_hash) {
        let i = choose|i: int|
            0 <= i < builtins.len() && builtin_matches(builtins[i], name_hash) && forall|j: int|
                0 <= j < i ==> !builtin_matches(builtins[j], name_hash);
        Some(CommandSource::Builtin(i as usize))
    } else {
        None
    }
}

/// Finds a command by the hash of its name.
pub fn find_command(commands: &CommandCollection, name_hash: u64) -> (r: Option<CommandSource>)
    ensures
        r == lookup(*commands, name_hash),
        match r {
            Some(CommandSource::Macro(i)) => i < commands.macro_commands@.len(),
            Some(CommandSource::Request(i)) => i < commands.request_commands@.len(),
            Some(CommandSource::Builtin(i)) => i < commands.builtin_commands@.len(),
            None => true,
        },
{
    let mut i: usize = 0;
    while i < commands.macro_commands.len()
        invariant
            i <= commands.macro_commands@.len(),
            forall|j: int| 0 <= j < i ==> commands.macro_commands@[j].name_hash != name_hash,
        decreases commands.macro_commands@.len() - i,
    {
        if commands.macro_commands[i].name_hash == name_hash {
            return Some(CommandSource::Macro(i));
        }
        i += 1;
    }
    let mut i: usize = 0;
    while i < commands.request_commands.len()
        invariant
            i <= commands.request_commands@.len(),
            forall|j: int| 0 <= j < i ==> commands.request_commands@[j].name_hash != name_hash,
            forall|j: int|
                0 <= j < commands.macro_commands@.len() ==> commands.macro_commands@[j].name_hash
                    != name_hash,
        decreases commands.request_commands@.len() - i,
    {
        if commands.request_commands[i].name_hash == name_hash {
            let ghost requests = commands.request_commands@;
            assert(forall|k: int|
                0 <= k < requests.len() && requests[k].name_hash == name_hash && (forall|j: int|
                    0 <= j < k ==> requests[j].name_hash != name_hash) ==> k == i);
            return Some(CommandSource::Request(i));
        }
        i += 1;
    }
    let mut i: usize = 0;
    while i < commands.builtin_commands.len()
        invariant
            i <= commands.builtin_commands@.len(),
            forall|j: int|
                0 <= j < i ==> !builtin_matches(commands.builtin_commands@[j], name_hash),
            forall|j: int|
                0 <= j < commands.macro_commands@.len() ==> commands.macro_commands@[j].name_hash
                    != name_hash,
            forall|j: int|
                0 <= j < commands.request_commands@.len() ==> commands.request_commands@[j].name_hash
                    != name_hash,
        decreases commands.builtin_commands@.len() - i,
    {
        let c = &commands.builtin_commands[i];
        if c.name_hash == name_hash || c.alias_hash == name_hash {
            let ghost builtins = commands.builtin_commands@;
            assert(forall|k: int|
                0 <= k < builtins.len() && builtin_matches(builtins[k], name_hash) && (forall|j: int|
                    0 <= j < k ==> !builtin_matches(builtins[j], name_hash)) ==> k == i);
            return Some(CommandSource::Builtin(i));
        }
        i += 1;
    }
    None
}

/// The machine that runs compiled commands. `texts` is the text arena that
/// every stack value points into.
pub struct VirtualMachine {
    pub ops: Vec<Op>,
    pub texts: Vec<u8>,
    pub value_stack: Vec<StackValue>,
    pub frames: Vec<StackFrame>,
    pub prepared_frames: Vec<StackFrame>,
    pub op_locations: Vec<SourceLocation>,
}

impl VirtualMachine {
    pub fn new() -> (r: VirtualMachine)
        ensures
            r.ops@.len() == 0 && r.texts@.len() == 0 && r.value_stack@.len() == 0,
            r.frames@.len() == 0 && r.prepared_frames@.len() == 0 && r.op_locations@.len() == 0,
    {
        VirtualMachine {
            ops: Vec::new(),
            texts: Vec::new(),
            value_stack: Vec::new(),
            frames: Vec::new(),
            prepared_frames: Vec::new(),
            op_locations: Vec::new(),
        }
    }
}

} // verus!
