use pepper::bytecode::BuiltinCommand;
use pepper::buffer_position::BufferPosition;
use pepper::client_event::Key;
use pepper::command::{CommandError, CommandErrorKind, SourcePathHandle};
use pepper::editor_utils::{hash_bytes, MessageKind, StatusBar};
use pepper::manager::CommandManager;
use pepper::mode::{
    completion_point_of, submit_outcome, CompletionTarget, Editor, Mode, ModeKind, ModeOperation, PickerState,
};
use pepper::vm::{CommandArgs, CommandHost, CommandOperation};

struct Host;

impl CommandHost for Host {
    fn call_builtin(
        &mut self,
        index: usize,
        _args: &mut CommandArgs<'_>,
        _output: &mut String,
    ) -> Result<Option<CommandOperation>, CommandErrorKind> {
        match index {
            0 => Ok(Some(CommandOperation::Quit)),
            _ => Err(CommandErrorKind::Aborted),
        }
    }

    fn call_request(&mut self, _index: usize) {}
}

fn editor() -> Editor {
    let builtins = vec![
        BuiltinCommand {
            name_hash: hash_bytes(b"quit"),
            alias_hash: hash_bytes(b"q"),
            hidden: false,
            completions: Vec::new(),
            accepts_bang: false,
            flags: Vec::new(),
        },
        BuiltinCommand {
            name_hash: hash_bytes(b"abort"),
            alias_hash: hash_bytes(b"abort"),
            hidden: false,
            completions: Vec::new(),
            accepts_bang: false,
            flags: Vec::new(),
        },
    ];
    Editor::new(CommandManager::new(builtins))
}

fn type_keys(editor: &mut Editor, text: &str) -> Option<ModeOperation> {
    let mut last = None;
    for c in text.chars() {
        last = Mode::on_client_keys(editor, &mut Host, Key::Char(c), "");
    }
    last
}

#[test]
fn entering_command_mode_sets_prompt_and_clears_input() {
    let mut editor = editor();
    editor.read_line.input.push_str("leftover");
    Mode::change_to(&mut editor, ModeKind::Command);
    assert_eq!(ModeKind::Command, editor.mode.kind());
    assert_eq!(":", editor.read_line.prompt());
    assert_eq!("", editor.read_line.input());
    assert_eq!(
        PickerState::NavigatingHistory(0),
        editor.mode.command_state.picker_state
    );
    type_keys(&mut editor, "abc");
    Mode::change_to(&mut editor, ModeKind::Command);
    assert_eq!("", editor.read_line.input());
}

#[test]
fn submitting_quit_returns_quit() {
    let mut editor = editor();
    Mode::change_to(&mut editor, ModeKind::Command);
    type_keys(&mut editor, "quit");
    let op = Mode::on_client_keys(&mut editor, &mut Host, Key::Enter, "");
    assert_eq!(Some(ModeOperation::Quit), op);
    assert_eq!(ModeKind::Normal, editor.mode.kind());
    assert_eq!(1, editor.commands.history_len());
    assert_eq!("quit", editor.commands.history_entry(0));
}

#[test]
fn errors_go_to_the_status_bar_but_aborts_do_not() {
    let mut editor = editor();
    Mode::change_to(&mut editor, ModeKind::Command);
    type_keys(&mut editor, "nothing");
    assert_eq!(None, Mode::on_client_keys(&mut editor, &mut Host, Key::Enter, ""));
    assert_eq!(MessageKind::Error, editor.status_bar.message().0);
    assert_eq!("no such command", editor.status_bar.message().1);
    editor.status_bar.clear();
    Mode::change_to(&mut editor, ModeKind::Command);
    type_keys(&mut editor, "abort");
    assert_eq!(None, Mode::on_client_keys(&mut editor, &mut Host, Key::Enter, ""));
    assert_eq!("", editor.status_bar.message().1);
}

#[test]
fn too_long_command_is_rejected() {
    let mut editor = editor();
    Mode::change_to(&mut editor, ModeKind::Command);
    type_keys(&mut editor, &"x".repeat(257));
    assert_eq!(None, Mode::on_client_keys(&mut editor, &mut Host, Key::Enter, ""));
    assert_eq!(MessageKind::Error, editor.status_bar.message().0);
}

#[test]
fn escape_goes_back_to_normal_mode() {
    let mut editor = editor();
    Mode::change_to(&mut editor, ModeKind::Command);
    type_keys(&mut editor, "ab");
    assert_eq!(None, Mode::on_client_keys(&mut editor, &mut Host, Key::Esc, ""));
    assert_eq!(ModeKind::Normal, editor.mode.kind());
    assert_eq!("", editor.read_line.input());
}

#[test]
fn history_navigation() {
    let mut editor = editor();
    editor.commands.add_to_history("first");
    editor.commands.add_to_history("second");
    Mode::change_to(&mut editor, ModeKind::Command);
    Mode::on_client_keys(&mut editor, &mut Host, Key::Ctrl('p'), "");
    assert_eq!("second", editor.read_line.input());
    Mode::on_client_keys(&mut editor, &mut Host, Key::Ctrl('k'), "");
    assert_eq!("first", editor.read_line.input());
    Mode::on_client_keys(&mut editor, &mut Host, Key::Ctrl('p'), "");
    assert_eq!("first", editor.read_line.input());
    Mode::on_client_keys(&mut editor, &mut Host, Key::Ctrl('n'), "");
    assert_eq!("second", editor.read_line.input());
    Mode::on_client_keys(&mut editor, &mut Host, Key::Ctrl('j'), "");
    assert_eq!("second", editor.read_line.input());
}

#[test]
fn other_modes_ignore_keys() {
    let mut editor = editor();
    assert_eq!(None, Mode::on_client_keys(&mut editor, &mut Host, Key::Char('x'), ""));
    assert_eq!(ModeKind::Normal, editor.mode.kind());
    Mode::on_editor_events(&mut editor);
    Mode::change_to(&mut editor, ModeKind::Normal);
    assert_eq!(ModeKind::Normal, editor.mode.kind());
}

#[test]
fn completion_points() {

    assert_eq!((0, CompletionTarget::CommandName), completion_point_of("op"));
    assert_eq!((2, CompletionTarget::CommandName), completion_point_of("  op"));
    assert_eq!((5, CompletionTarget::Value), completion_point_of("open "));
    assert_eq!((5, CompletionTarget::Value), completion_point_of("open fi"));
    assert_eq!((5, CompletionTarget::FlagName), completion_point_of("open -fl"));
    assert_eq!((11, CompletionTarget::FlagValue), completion_point_of("open -flag=va"));
}

#[test]
fn typing_switches_to_completion() {
    let mut editor = editor();
    Mode::change_to(&mut editor, ModeKind::Command);
    type_keys(&mut editor, "quit -x");
    assert_eq!(PickerState::TypingCommand, editor.mode.command_state.picker_state);
    assert_eq!(5, editor.mode.command_state.completion_index);
    Mode::on_client_keys(&mut editor, &mut Host, Key::Ctrl('u'), "");
    assert_eq!(
        PickerState::NavigatingHistory(0),
        editor.mode.command_state.picker_state
    );
}

#[test]
fn command_of_the_largest_length_is_evaluated() {
    let mut editor = editor();
    Mode::change_to(&mut editor, ModeKind::Command);
    type_keys(&mut editor, &"x".repeat(256));
    assert_eq!(None, Mode::on_client_keys(&mut editor, &mut Host, Key::Enter, ""));
    assert_eq!("no such command", editor.status_bar.message().1);
    assert_eq!(ModeKind::Normal, editor.mode.kind());
}

#[test]
fn submit_outcomes() {
    let mut status_bar = StatusBar::new();
    assert_eq!(
        Some(ModeOperation::Quit),
        submit_outcome(&mut status_bar, Ok(Some(CommandOperation::Quit)))
    );
    assert_eq!(
        Some(ModeOperation::QuitAll),
        submit_outcome(&mut status_bar, Ok(Some(CommandOperation::QuitAll)))
    );
    assert_eq!(None, submit_outcome(&mut status_bar, Ok(None)));
    let error = |kind| CommandError {
        kind,
        source: SourcePathHandle(0),
        position: BufferPosition::zero(),
    };
    assert_eq!(None, submit_outcome(&mut status_bar, Err(error(CommandErrorKind::Aborted))));
    assert_eq!("", status_bar.message().1);
    assert_eq!(None, submit_outcome(&mut status_bar, Err(error(CommandErrorKind::NoSuchFlag))));
    assert_eq!((MessageKind::Error, "no such flag"), status_bar.message());
}
