use pepper::bytecode::{BuiltinCommand, StackValue, VirtualMachine};
use pepper::command::{CommandError, CommandErrorKind, SourcePathHandle};
use pepper::editor_utils::hash_bytes;
use pepper::manager::{CommandArgsBuilder, CommandManager, SourcePathCollection};
use pepper::vm::{
    check_builtin_call, finish_builtin_call, CommandArgs, CommandHost, CommandOperation,
};

fn builtins() -> Vec<BuiltinCommand> {
    vec![
        BuiltinCommand {
            name_hash: hash_bytes(b"cmd"),
            alias_hash: hash_bytes(b""),
            hidden: false,
            completions: Vec::new(),
            accepts_bang: false,
            flags: vec!["switch".to_string(), "option".to_string()],
        },
        BuiltinCommand {
            name_hash: hash_bytes(b"append"),
            alias_hash: hash_bytes(b"cat"),
            hidden: false,
            completions: Vec::new(),
            accepts_bang: false,
            flags: Vec::new(),
        },
        BuiltinCommand {
            name_hash: hash_bytes(b"quit"),
            alias_hash: hash_bytes(b"q"),
            hidden: false,
            completions: Vec::new(),
            accepts_bang: true,
            flags: Vec::new(),
        },
        BuiltinCommand {
            name_hash: hash_bytes(b"fail"),
            alias_hash: hash_bytes(b"f"),
            hidden: false,
            completions: Vec::new(),
            accepts_bang: false,
            flags: Vec::new(),
        },
        BuiltinCommand {
            name_hash: hash_bytes(b"option"),
            alias_hash: hash_bytes(b"o"),
            hidden: false,
            completions: Vec::new(),
            accepts_bang: false,
            flags: vec!["value".to_string()],
        },
    ]
}

struct TestHost;

impl CommandHost for TestHost {
    fn call_builtin(
        &mut self,
        index: usize,
        args: &mut CommandArgs<'_>,
        output: &mut String,
    ) -> Result<Option<CommandOperation>, CommandErrorKind> {
        match index {
            1 => {
                while let Some(arg) = args.try_next() {
                    output.push_str(arg);
                }
                Ok(None)
            }
            2 => Ok(Some(if args.bang {
                CommandOperation::QuitAll
            } else {
                CommandOperation::Quit
            })),
            3 => Err(CommandErrorKind::TooFewArguments),
            4 => {
                let flags = args.get_flags(1);
                output.push_str("[");
                output.push_str(flags[0]);
                output.push_str("]");
                args.assert_empty()?;
                Ok(None)
            }
            _ => Ok(None),
        }
    }

    fn call_request(&mut self, _index: usize) {}
}

fn try_eval_in(commands: &mut CommandManager, source: &str) -> Result<String, CommandError> {
    let mut output = String::new();
    commands.eval(&mut TestHost, source, &mut output)?;
    let vm = &commands.virtual_machine;
    assert_eq!(1, vm.value_stack.len());
    assert_eq!(0, vm.frames.len());
    assert_eq!(0, vm.prepared_frames.len());
    Ok(output)
}

fn eval(source: &str) -> String {
    let mut commands = CommandManager::new(builtins());
    try_eval_in(&mut commands, source).unwrap()
}

fn eval_error(source: &str) -> CommandErrorKind {
    let mut commands = CommandManager::new(builtins());
    let mut output = String::new();
    let error = commands.eval(&mut TestHost, source, &mut output).unwrap_err();
    let vm = &commands.virtual_machine;
    assert_eq!(0, vm.value_stack.len());
    assert_eq!(0, vm.frames.len());
    assert_eq!(0, vm.prepared_frames.len());
    assert_eq!(0, vm.ops.len());
    assert_eq!(0, vm.texts.len());
    assert_eq!(0, commands.commands.macro_commands.len());
    assert_eq!("", output);
    error.kind
}

#[test]
fn command_execution() {
    assert_eq!("", eval(""));
    assert_eq!("abc", eval("return 'abc'"));
    assert_eq!("", eval("macro c { }"));
    assert_eq!("", eval("macro c $a { return $a }"));
    assert_eq!("", eval("macro c $a { return $a }\n c 'abc' \n c 'def'"));
    assert_eq!("abc", eval("macro c $a { return $a }\n return c 'abc'"));
    assert_eq!(
        "a",
        eval("macro first $a $b { return $a }\n return first a b")
    );
    assert_eq!(
        "b",
        eval("macro second $a $b { return $b }\n return second a b")
    );
    assert_eq!(
        "ab",
        eval(
            "macro first $a $b { return $a }\n\
             macro second $a $b { return first $b x }\n\
             return append (first a y) (second a b)"
        )
    );
}

#[test]
fn builtin_output_becomes_the_value() {
    assert_eq!("xyz", eval("return append x 'y' \"z\""));
    assert_eq!("xy", eval("return cat (append x) y"));
    assert_eq!("a\tb\n'\\", eval("return append 'a\\tb\\n\\'\\\\'"));
    assert_eq!("[v]", eval("return option -value=v"));
    assert_eq!("[]", eval("return option -value"));
    assert_eq!("[]", eval("return option"));
    assert_eq!("abab", eval("$x = append a b\n return append $x $x"));
}

#[test]
fn macro_returning_builtin_output() {
    assert_eq!(
        "<ab>",
        eval("macro w $a { return append '<' $a '>' }\n return w (append a b)")
    );
}

#[test]
fn macros_stay_defined_between_evaluations() {
    let mut commands = CommandManager::new(builtins());
    assert_eq!("", try_eval_in(&mut commands, "macro m $a { return append $a $a }").unwrap());
    let ops = commands.virtual_machine.ops.len();
    assert_eq!("zz", try_eval_in(&mut commands, "return m z").unwrap());
    assert_eq!("qq", try_eval_in(&mut commands, "return m q").unwrap());
    assert_eq!(ops, commands.virtual_machine.ops.len());
    assert_eq!(
        CommandErrorKind::CommandAlreadyExists,
        try_eval_in(&mut commands, "macro m { }").unwrap_err().kind
    );
    assert_eq!("qq", try_eval_in(&mut commands, "return m q").unwrap());
}

#[test]
fn command_does_not_accept_bang() {
    assert_eq!(CommandErrorKind::CommandDoesNotAcceptBang, eval_error("cmd!"));
}

#[test]
fn builtin_operations_surface() {
    let mut commands = CommandManager::new(builtins());
    let mut output = String::new();
    assert_eq!(
        Ok(Some(CommandOperation::Quit)),
        commands.eval(&mut TestHost, "quit", &mut output)
    );
    assert_eq!(
        Ok(Some(CommandOperation::QuitAll)),
        commands.eval(&mut TestHost, "q!", &mut output)
    );
}

#[test]
fn execution_and_compile_errors() {
    assert_eq!(CommandErrorKind::TooFewArguments, eval_error("fail"));
    assert_eq!(CommandErrorKind::TooManyArguments, eval_error("option x"));
    assert_eq!(CommandErrorKind::NoSuchCommand, eval_error("nothing"));
    assert_eq!(CommandErrorKind::NoSuchFlag, eval_error("cmd -nope"));
    assert_eq!(CommandErrorKind::UndeclaredBinding, eval_error("cmd $x"));
    assert_eq!(CommandErrorKind::ExpectedExpression, eval_error("cmd ="));
    assert_eq!(CommandErrorKind::ExpectedStatement, eval_error("="));
    assert_eq!(CommandErrorKind::InvalidMacroName, eval_error("macro a.b { }"));
    assert_eq!(CommandErrorKind::CommandAlreadyExists, eval_error("macro cmd { }"));
    assert_eq!(CommandErrorKind::InvalidLiteralEscaping, eval_error("cmd 'a\\qb'"));
    assert_eq!(CommandErrorKind::UnterminatedQuotedLiteral, eval_error("cmd 'a"));
    assert_eq!(CommandErrorKind::InvalidFlagName, eval_error("cmd - a"));
    assert_eq!(CommandErrorKind::InvalidBindingName, eval_error("cmd $"));
    assert_eq!(
        CommandErrorKind::LiteralTooLong,
        eval_error(&format!("cmd {}", "a".repeat(256)))
    );
    assert_eq!(
        CommandErrorKind::ExpectedToken(pepper::command::CommandTokenKind::CloseParenthesis),
        eval_error("cmd (cmd")
    );
    assert_eq!(
        CommandErrorKind::ExpectedToken(pepper::command::CommandTokenKind::CloseCurlyBrackets),
        eval_error("macro m { cmd")
    );
    assert_eq!(
        CommandErrorKind::ExpectedToken(pepper::command::CommandTokenKind::OpenCurlyBrackets),
        eval_error("macro m x")
    );
    assert_eq!(CommandErrorKind::WrongNumberOfArgs, eval_error(&format!("cmd{}", " a".repeat(256))));
    let many_bindings: String = (0..256).map(|i| format!("$b{} = 'a'\n", i)).collect();
    assert_eq!(CommandErrorKind::TooManyBindings, eval_error(&many_bindings));
}

#[test]
fn literal_of_the_largest_length() {
    let text = "a".repeat(255);
    assert_eq!(text, eval(&format!("return '{}'", text)));
}

#[test]
fn error_carries_its_position() {
    let mut commands = CommandManager::new(builtins());
    let mut output = String::new();
    let error = commands
        .eval(&mut TestHost, "cmd\n  nothing", &mut output)
        .unwrap_err();
    assert_eq!(CommandErrorKind::NoSuchCommand, error.kind);
    assert_eq!(1, error.position.line_index);
    assert_eq!(2, error.position.column_byte_index);
}

#[test]
fn source_paths_and_output() {
    let mut paths = SourcePathCollection::new();
    assert_eq!("", paths.get(SourcePathHandle(0)));
    let handle = paths.add("init.pp");
    assert_eq!(SourcePathHandle(1), handle);
    assert_eq!("init.pp", paths.get(handle));
    assert_eq!("", paths.get(SourcePathHandle(7)));

    let mut commands = CommandManager::new(builtins());
    commands.write_output("out");
    assert_eq!(b"out".to_vec(), commands.virtual_machine.texts);
    let builder = CommandArgsBuilder {
        stack_index: 0,
        bang: true,
    };
    let mut args = builder.with(&commands);
    assert!(args.bang);
    assert_eq!(None, args.try_next());
    assert_eq!(Err(CommandErrorKind::TooFewArguments), args.next());
    assert_eq!(Ok(()), args.assert_empty());
}

#[test]
fn builtin_call_steps() {
    use_steps();
}

fn use_steps() {
    let commands = CommandManager::new(builtins());
    assert_eq!(Ok(()), check_builtin_call(&commands.commands, 2, true));
    assert_eq!(
        Err(CommandErrorKind::CommandDoesNotAcceptBang),
        check_builtin_call(&commands.commands, 0, true)
    );
    assert_eq!(
        Err(CommandErrorKind::NoSuchCommand),
        check_builtin_call(&commands.commands, 9, false)
    );
    let mut vm = VirtualMachine::new();
    vm.texts.extend_from_slice(b"abcdef");
    vm.value_stack.push(StackValue { start: 0, end: 2 });
    vm.value_stack.push(StackValue { start: 2, end: 6 });
    finish_builtin_call(&mut vm, 1, 2, b"xy");
    assert_eq!(b"abxy".to_vec(), vm.texts);
    assert_eq!(
        vec![StackValue { start: 0, end: 2 }, StackValue { start: 2, end: 4 }],
        vm.value_stack
    );
}
