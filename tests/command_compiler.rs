use pepper::bytecode::BuiltinCommand;
use pepper::bytecode::Op;
use pepper::bytecode::Op::{
    CallBuiltinCommand, DuplicateAt, Pop, PopAsFlag, PrepareStackFrame, PushStringLiteral, Return,
};
use pepper::command::SourcePathHandle;
use pepper::compiler::compile;
use pepper::editor_utils::hash_bytes;
use pepper::manager::CommandManager;

fn builtins() -> Vec<BuiltinCommand> {
    vec![
        BuiltinCommand {
            name_hash: hash_bytes(b"cmd"),
            alias_hash: hash_bytes(b""),
            hidden: false,
            completions: Vec::new(),
            accepts_bang: true,
            flags: vec!["switch".to_string(), "option".to_string()],
        },
        BuiltinCommand {
            name_hash: hash_bytes(b"append"),
            alias_hash: hash_bytes(b""),
            hidden: false,
            completions: Vec::new(),
            accepts_bang: false,
            flags: Vec::new(),
        },
    ]
}

fn compile_into_ops(source: &str) -> Vec<Op> {
    let mut commands = CommandManager::new(builtins());
    compile(
        source,
        SourcePathHandle(0),
        &mut commands.commands,
        &mut commands.virtual_machine,
    )
    .unwrap();
    assert_eq!(
        commands.virtual_machine.ops.len(),
        commands.virtual_machine.op_locations.len()
    );
    commands.virtual_machine.ops
}

#[test]
fn command_compiler() {
    assert_eq!(
        vec![PushStringLiteral { start: 0, len: 0 }, Return],
        compile_into_ops(""),
    );

    assert_eq!(
        vec![
            PrepareStackFrame,
            PushStringLiteral { start: 0, len: 0 },
            PushStringLiteral { start: 0, len: 0 },
            CallBuiltinCommand {
                index: 0,
                bang: false,
                arg_count: 0,
            },
            Pop,
            PushStringLiteral { start: 0, len: 0 },
            Return,
        ],
        compile_into_ops("cmd"),
    );

    assert_eq!(
        vec![
            PrepareStackFrame,
            PushStringLiteral { start: 0, len: 0 },
            PushStringLiteral { start: 0, len: 0 },
            PushStringLiteral {
                start: 0,
                len: "arg0".len() as _,
            },
            PushStringLiteral {
                start: "arg0".len() as _,
                len: "arg1".len() as _,
            },
            CallBuiltinCommand {
                index: 0,
                bang: true,
                arg_count: 2,
            },
            Pop,
            PushStringLiteral { start: 0, len: 0 },
            Return,
        ],
        compile_into_ops("cmd! arg0 arg1"),
    );

    assert_eq!(
        vec![
            PrepareStackFrame,
            PushStringLiteral { start: 0, len: 0 },
            PushStringLiteral { start: 0, len: 0 },
            PushStringLiteral { start: 0, len: 0 },
            PopAsFlag(0),
            PushStringLiteral {
                start: 0,
                len: "arg".len() as _,
            },
            PushStringLiteral {
                start: "arg".len() as _,
                len: "opt".len() as _,
            },
            PopAsFlag(1),
            CallBuiltinCommand {
                index: 0,
                bang: false,
                arg_count: 1,
            },
            Pop,
            PushStringLiteral { start: 0, len: 0 },
            Return,
        ],
        compile_into_ops("cmd -switch arg -option=opt"),
    );

    assert_eq!(
        vec![
            PrepareStackFrame,
            PushStringLiteral { start: 0, len: 0 },
            PushStringLiteral { start: 0, len: 0 },
            PushStringLiteral {
                start: 0,
                len: "arg0".len() as _,
            },
            // begin nested call
            PrepareStackFrame,
            PushStringLiteral { start: 0, len: 0 },
            PushStringLiteral { start: 0, len: 0 },
            PushStringLiteral {
                start: "arg0".len() as _,
                len: "arg1".len() as _,
            },
            CallBuiltinCommand {
                index: 0,
                bang: false,
                arg_count: 1,
            },
            // end nested call
            PopAsFlag(1),
            PushStringLiteral {
                start: "arg0arg1".len() as _,
                len: "arg2".len() as _,
            },
            CallBuiltinCommand {
                index: 0,
                bang: false,
                arg_count: 2,
            },
            Pop,
            PushStringLiteral { start: 0, len: 0 },
            Return,
        ],
        compile_into_ops("cmd arg0 -option=(cmd arg1) arg2"),
    );

    assert_eq!(
        vec![
            PrepareStackFrame,
            PushStringLiteral { start: 0, len: 0 },
            PushStringLiteral { start: 0, len: 0 },
            PushStringLiteral {
                start: 0,
                len: "arg0".len() as _,
            },
            PushStringLiteral {
                start: "arg0".len() as _,
                len: "arg1".len() as _,
            },
            CallBuiltinCommand {
                index: 0,
                bang: false,
                arg_count: 2,
            },
            Pop,
            PushStringLiteral { start: 0, len: 0 },
            Return,
        ],
        compile_into_ops("(cmd \n arg0 \n arg1)"),
    );

    assert_eq!(
        vec![
            PrepareStackFrame,
            PushStringLiteral { start: 0, len: 0 },
            PushStringLiteral { start: 0, len: 0 },
            DuplicateAt(0),
            DuplicateAt(1),
            PopAsFlag(1),
            CallBuiltinCommand {
                index: 0,
                bang: false,
                arg_count: 1,
            },
            Return,
            PushStringLiteral { start: 0, len: 0 },
            Return,
            PushStringLiteral { start: 0, len: 0 },
            Return,
        ],
        compile_into_ops("macro c $a $b {\n\treturn cmd $a -option=$b\n}"),
    );

    assert_eq!(
        vec![
            // begin macro
            PrepareStackFrame,
            PushStringLiteral { start: 0, len: 0 },
            PushStringLiteral { start: 0, len: 0 },
            DuplicateAt(0),
            CallBuiltinCommand {
                index: 0,
                bang: false,
                arg_count: 1,
            },
            Pop,
            PushStringLiteral { start: 0, len: 0 },
            Return,
            // end macro
            PrepareStackFrame,
            PushStringLiteral { start: 0, len: 0 },
            PushStringLiteral { start: 0, len: 0 },
            PushStringLiteral {
                start: 0,
                len: "0".len() as _
            },
            CallBuiltinCommand {
                index: 0,
                bang: false,
                arg_count: 1,
            },
            Pop,
            PrepareStackFrame,
            PushStringLiteral { start: 0, len: 0 },
            PushStringLiteral { start: 0, len: 0 },
            PushStringLiteral {
                start: "0".len() as _,
                len: "1".len() as _
            },
            CallBuiltinCommand {
                index: 0,
                bang: false,
                arg_count: 1,
            },
            Pop,
            PushStringLiteral { start: 0, len: 0 },
            Return,
        ],
        compile_into_ops("cmd '0'\n macro c $p { cmd $p } cmd '1'"),
    );
}
