use vstd::prelude::*;
use vstd::string::{StrSliceExecFns, StringSliceAdditionalSpecFns};

use crate::client_event::Key;
use crate::command::{CommandError, CommandErrorKind};
use crate::editor_utils::{read_line_step, MessageKind, ReadLine, ReadLinePoll, StatusBar};
use crate::manager::{evaluated, history_after_add, CommandManager};
use crate::vm::{CommandHost, CommandOperation};

verus! {

#[derive(Debug, Clone, Copy, PartialEq, Eq, Structural)]
pub enum ModeKind {
    Normal,
    Insert,
    Command,
    ReadLine,
    Picker,
}

/// What a mode asks of the host loop after handling keys.
#[derive(Debug, Clone, Copy, PartialEq, Eq, Structural)]
pub enum ModeOperation {
    Pending,
    Quit,
    QuitAll,
    ExecuteMacro(char),
}

#[derive(Debug, Clone, Copy, PartialEq, Eq, Structural)]
pub enum PickerState {
    NavigatingHistory(usize),
    TypingCommand,
}

/// What the word under completion is.
#[derive(Debug, Clone, Copy, PartialEq, Eq, Structural)]
pub enum CompletionTarget {
    CommandName,
    FlagName,
    FlagValue,
    Value,
}

/// The state of command mode.
#[derive(Debug, Clone, Copy, PartialEq, Eq, Structural)]
pub struct State {
    pub picker_state: PickerState,
    pub completion_index: usize,
    pub completion_target: CompletionTarget,
}

pub open spec fn is_ascii_whitespace_byte(c: u8) -> bool {
    c == 0x20 || c == 0x09 || c == 0x0a || c == 0x0c || c == 0x0d
}

/// Where the last word of `b[..i]` starts.
pub open spec fn word_start(b: Seq<u8>, i: int) -> int
    decreases i,
{
    if i > 0 && !is_ascii_whitespace_byte(b[i - 1]) {
        word_start(b, i - 1)
    } else {
        i
    }
}

/// The first `=` at or after `i`.
pub open spec fn first_equals(b: Seq<u8>, i: int) -> Option<int>
    decreases b.len() - i,
{
    if i < 0 || i >= b.len() {
        None
    } else if b[i] == 0x3d {
        Some(i)
    } else {
        first_equals(b, i + 1)
    }
}

/// Where completion replaces the input, and what it completes: the first word
/// is a command name; a word that starts with `-` is a flag name, or, after
/// its `=`, a flag value; any other word (or a new one after whitespace) is a
/// positional value.
pub open spec fn completion_point(b: Seq<u8>) -> (int, CompletionTarget) {
    let s = word_start(b, b.len() as int);
    if forall|j: int| 0 <= j < s ==> is_ascii_whitespace_byte(#[trigger] b[j]) {
        (s, CompletionTarget::CommandName)
    } else if s < b.len() && b[s] == 0x2d {
        match first_equals(b, s) {
            Some(k) => (k + 1, CompletionTarget::FlagValue),
            None => (s, CompletionTarget::FlagName),
        }
    } else {
        (s, CompletionTarget::Value)
    }
}

/// Finds where completion applies in `input`, as `completion_point` says.
pub fn completion_point_of(input: &str) -> (r: (usize, CompletionTarget))
    ensures
        r.0 as int == completion_point(input.spec_bytes()).0,
        r.1 == completion_point(input.spec_bytes()).1,
{
    let b = input.as_bytes();
    let mut s = b.len();
    while s > 0 && !(b[s - 1] == 0x20 || b[s - 1] == 0x09 || b[s - 1] == 0x0a || b[s - 1] == 0x0c
        || b[s - 1] == 0x0d)
        invariant
            s <= b@.len(),
            word_start(b@, b@.len() as int) == word_start(b@, s as int),
        decreases s,
    {
        s -= 1;
    }
    let mut j: usize = 0;
    while j < s && (b[j] == 0x20 || b[j] == 0x09 || b[j] == 0x0a || b[j] == 0x0c || b[j] == 0x0d)
        invariant
            j <= s <= b@.len(),
            forall|k: int| 0 <= k < j ==> is_ascii_whitespace_byte(#[trigger] b@[k]),
        decreases s - j,
    {
        j += 1;
    }
    if j == s {
        return (s, CompletionTarget::CommandName);
    }
    if s < b.len() && b[s] == 0x2d {
        let mut k = s;
        while k < b.len() && b[k] != 0x3d
            invariant
                s <= k <= b@.len(),
                first_equals(b@, s as int) == first_equals(b@, k as int),
            decreases b@.len() - k,
        {
            k += 1;
        }
        if k < b.len() {
            (k + 1, CompletionTarget::FlagValue)
        } else {
            (s, CompletionTarget::FlagName)
        }
    } else {
        (s, CompletionTarget::Value)
    }
}

/// The active mode, and the state each mode keeps across activations.
pub struct Mode {
    pub kind: ModeKind,
    pub command_state: State,
}

/// The aggregate that modes act on.
pub struct Editor {
    pub mode: Mode,
    pub read_line: ReadLine,
    pub status_bar: StatusBar,
    pub commands: CommandManager,
}

/// Longest command that command mode hands to the command manager, in bytes.
pub const COMMAND_MAX_LEN: usize = 256;

impl Editor {
    pub open spec fn wf(&self) -> bool {
        self.commands.wf()
    }

    pub fn new(commands: CommandManager) -> (r: Editor)
        requires
            commands.wf(),
        ensures
            r.wf(),
            r.mode.kind == ModeKind::Normal,
    {
        Editor {
            mode: Mode {
                kind: ModeKind::Normal,
                command_state: State {
                    picker_state: PickerState::TypingCommand,
                    completion_index: 0,
                    completion_target: CompletionTarget::CommandName,
                },
            },
            read_line: ReadLine::new(),
            status_bar: StatusBar::new(),
            commands,
        }
    }
}

/// What `on_exit` of `kind` does: command mode empties the input.
pub open spec fn exited(kind: ModeKind, before: &Editor, after: &Editor) -> bool {
    &&& after.mode == before.mode
    &&& after.read_line.prompt == before.read_line.prompt
    &&& after.commands == before.commands
    &&& after.status_bar == before.status_bar
    &&& if kind == ModeKind::Command {
        after.read_line.input@.len() == 0
    } else {
        after.read_line.input == before.read_line.input
    }
}

/// What `on_enter` of `kind` does: command mode sets the prompt to `:`,
/// empties the input and starts at the end of the history.
pub open spec fn entered(kind: ModeKind, before: &Editor, after: &Editor) -> bool {
    &&& after.mode.kind == before.mode.kind
    &&& after.commands == before.commands
    &&& after.status_bar == before.status_bar
    &&& if kind == ModeKind::Command {
        &&& after.read_line.prompt@ == seq![':']
        &&& after.read_line.input@.len() == 0
        &&& after.mode.command_state.picker_state == PickerState::NavigatingHistory(
            before.commands.history_view().len() as usize,
        )
        &&& after.mode.command_state.completion_index == before.mode.command_state.completion_index
        &&& after.mode.command_state.completion_target == before.mode.command_state.completion_target
    } else {
        &&& after.read_line == before.read_line
        &&& after.mode.command_state == before.mode.command_state
    }
}

fn on_exit(editor: &mut Editor, kind: ModeKind)
    ensures
        exited(kind, old(editor), final(editor)),
{
    if let ModeKind::Command = kind {
        editor.read_line.input = String::new();
    }
}

fn on_enter(editor: &mut Editor, kind: ModeKind)
    ensures
        entered(kind, old(editor), final(editor)),
{
    if let ModeKind::Command = kind {
        editor.mode.command_state.picker_state = PickerState::NavigatingHistory(
            editor.commands.history_len(),
        );
        let colon: &str = ":";
        proof {
            reveal_strlit(":");
        }
        assert(colon@ =~= seq![':']);
        editor.read_line.set_prompt(colon);
        editor.read_line.input = String::new();
    }
}

impl Mode {
    pub fn kind(&self) -> (r: ModeKind)
        ensures
            r == self.kind,
    {
        self.kind
    }

    /// Switches to `next`: the current mode's `on_exit` runs once, then the
    /// mode is `next`, then its `on_enter` runs once; also when `next` is the
    /// current mode.
    pub fn change_to(editor: &mut Editor, next: ModeKind)
        ensures
            final(editor).mode.kind == next,
            exists|exited_state: Editor, entered_from: Editor|
                {
                    &&& exited(old(editor).mode.kind, old(editor), &exited_state)
                    &&& entered_from.mode == Mode {
                        kind: next,
                        command_state: exited_state.mode.command_state,
                    }
                    &&& entered_from.read_line == exited_state.read_line
                    &&& entered_from.commands == exited_state.commands
                    &&& entered_from.status_bar == exited_state.status_bar
                    &&& entered(next, &entered_from, final(editor))
                },
    {
        let previous = editor.mode.kind;
        on_exit(editor, previous);
        let ghost exited_state = *editor;
        editor.mode.kind = next;
        let ghost entered_from = *editor;
        on_enter(editor, next);
        assert(entered_from.mode == Mode { kind: next, command_state: exited_state.mode.command_state });
    }

    /// Routes one key to the active mode.
    pub fn on_client_keys<H: CommandHost>(editor: &mut Editor, host: &mut H, key: Key, clipboard: &str) -> (r:
        Option<ModeOperation>)
        requires
            old(editor).wf(),
        ensures
            final(editor).wf(),
            old(editor).mode.kind != ModeKind::Command ==> r.is_none() && *final(editor) == *old(
                editor,
            ),
            old(editor).mode.kind == ModeKind::Command ==> command_key_ok(old(editor), final(editor), key, clipboard@, r),
    {
        match editor.mode.kind {
            ModeKind::Command => command_mode_on_key(editor, host, key, clipboard),
            _ => None,
        }
    }

    /// Editor events reach the active mode; no mode reacts to them.
    pub fn on_editor_events(editor: &mut Editor)
        ensures
            *final(editor) == *old(editor),
    {
    }
}

/// History entry `index`, or nothing past the end.
pub open spec fn history_text(history: Seq<Seq<char>>, index: int) -> Seq<char> {
    if 0 <= index < history.len() {
        history[index]
    } else {
        seq![]
    }
}

/// The history index after moving towards the newest entry, stopping at the last.
pub open spec fn next_history_index(i: int, len: int) -> int {
    let last = if len > 0 {
        len - 1
    } else {
        0
    };
    if i < last {
        i + 1
    } else {
        last
    }
}

/// The history index after moving towards the oldest entry, stopping at the first.
pub open spec fn previous_history_index(i: int) -> int {
    if i > 0 {
        i - 1
    } else {
        0
    }
}

/// What command mode returns for the result of an evaluation.
pub open spec fn outcome(result: Result<Option<CommandOperation>, CommandError>) -> Option<
    ModeOperation,
> {
    match result {
        Ok(Some(CommandOperation::Quit)) => Some(ModeOperation::Quit),
        Ok(Some(CommandOperation::QuitAll)) => Some(ModeOperation::QuitAll),
        _ => None,
    }
}

/// The status bar after an evaluation: every error but `Aborted` is shown.
pub open spec fn status_after(
    before: &StatusBar,
    after: &StatusBar,
    result: Result<Option<CommandOperation>, CommandError>,
) -> bool {
    match result {
        Err(e) => if e.kind != CommandErrorKind::Aborted {
            after.kind == MessageKind::Error && after.message@ == error_text(e.kind)
        } else {
            after == before
        },
        Ok(_) => after == before,
    }
}

/// Turns the result of an evaluation into what command mode returns, showing
/// errors on the status bar.
pub fn submit_outcome(status_bar: &mut StatusBar, result: Result<Option<CommandOperation>, CommandError>) -> (r: Option<ModeOperation>)
    ensures
        r == outcome(result),
        status_after(old(status_bar), final(status_bar), result),
{
    match result {
        Ok(Some(CommandOperation::Quit)) => Some(ModeOperation::Quit),
        Ok(Some(CommandOperation::QuitAll)) => Some(ModeOperation::QuitAll),
        Ok(_) => None,
        Err(error) => {
            if error.kind != CommandErrorKind::Aborted {
                status_bar.kind = MessageKind::Error;
                status_bar.message = error_message(error.kind).to_owned();
            }
            None
        },
    }
}

/// The message for a command longer than the limit.
pub open spec fn too_long_message(len: nat) -> Seq<char> {
    "command is too long. max is 256 bytes. got "@ + crate::editor_utils::decimal(len)
}

/// What command mode does with one key.
pub open spec fn command_key_ok(
    before: &Editor,
    after: &Editor,
    key: Key,
    clipboard: Seq<char>,
    r: Option<ModeOperation>,
) -> bool {
    let step = read_line_step(before.read_line.input@, key, clipboard);
    let input = step.0;
    match step.1 {
        ReadLinePoll::Canceled => after.mode.kind == ModeKind::Normal && r.is_none(),
        ReadLinePoll::Submitted => {
            &&& after.commands.history_view() == history_after_add(
                before.commands.history_view(),
                input,
            )
            &&& (r.is_none() || r == Some(ModeOperation::Quit) || r == Some(ModeOperation::QuitAll))
            &&& (vstd::utf8::encode_utf8(input).len() > COMMAND_MAX_LEN ==> {
                &&& r.is_none()
                &&& after.status_bar.kind == MessageKind::Error
                &&& after.status_bar.message@ == too_long_message(vstd::utf8::encode_utf8(input).len())
                &&& after.commands.virtual_machine == before.commands.virtual_machine
                &&& after.commands.commands == before.commands.commands
                &&& after.commands.definitions_texts_len == before.commands.definitions_texts_len
                &&& after.mode.kind == ModeKind::Command
            })
            &&& (vstd::utf8::encode_utf8(input).len() <= COMMAND_MAX_LEN ==> {
                &&& after.mode.kind == ModeKind::Normal
                &&& exists|added: CommandManager, output: Seq<char>, result: Result<Option<CommandOperation>, CommandError>|
                    {
                        &&& added.wf()
                        &&& added.history_view() == after.commands.history_view()
                        &&& added.commands == before.commands.commands
                        &&& added.virtual_machine == before.commands.virtual_machine
                        &&& added.definitions_texts_len == before.commands.definitions_texts_len
                        &&& added.paths == before.commands.paths
                        &&& #[trigger] evaluated(&added, &after.commands, vstd::utf8::encode_utf8(input), output, result)
                        &&& r == outcome(result)
                        &&& status_after(&before.status_bar, &after.status_bar, result)
                    }
            })
        },
        ReadLinePoll::Pending => {
            let navigation = key == Key::Ctrl('n') || key == Key::Ctrl('j') || key == Key::Ctrl('p')
                || key == Key::Ctrl('k');
            &&& r.is_none()
            &&& after.mode.kind == ModeKind::Command
            &&& after.commands == before.commands
            &&& after.status_bar == before.status_bar
            &&& (!navigation ==> after.read_line.input@ == input && autocompleted(
                before.commands.history_view().len(),
                input,
                after.mode.command_state,
            ))
            &&& (navigation && !(before.mode.command_state.picker_state is NavigatingHistory) ==> after.read_line.input@
                == input && after.mode.command_state == before.mode.command_state)
            &&& (before.mode.command_state.picker_state is NavigatingHistory && (key == Key::Ctrl('n')
                || key == Key::Ctrl('j')) ==> {
                let next = next_history_index(
                    before.mode.command_state.picker_state->NavigatingHistory_0 as int,
                    before.commands.history_view().len() as int,
                );
                &&& after.mode.command_state.picker_state == PickerState::NavigatingHistory(next as usize)
                &&& after.read_line.input@ == history_text(before.commands.history_view(), next)
            })
            &&& (before.mode.command_state.picker_state is NavigatingHistory && (key == Key::Ctrl('p')
                || key == Key::Ctrl('k')) ==> {
                let next = previous_history_index(
                    before.mode.command_state.picker_state->NavigatingHistory_0 as int,
                );
                &&& after.mode.command_state.picker_state == PickerState::NavigatingHistory(next as usize)
                &&& after.read_line.input@ == history_text(before.commands.history_view(), next)
            })
        },
    }
}

/// The status-bar text for an error.
pub open spec fn error_text(kind: CommandErrorKind) -> Seq<char> {
    match kind {
        CommandErrorKind::UnterminatedQuotedLiteral => "unterminated quoted literal"@,
        CommandErrorKind::InvalidFlagName => "invalid flag name"@,
        CommandErrorKind::InvalidBindingName => "invalid binding name"@,
        CommandErrorKind::AstTooLong => "program too long"@,
        CommandErrorKind::TooManyMacroCommands => "too many macro commands"@,
        CommandErrorKind::TooManyLiterals => "too many literals"@,
        CommandErrorKind::LiteralTooLong => "literal too long"@,
        CommandErrorKind::ExpectedToken(_) => "unexpected token"@,
        CommandErrorKind::ExpectedMacroDefinition => "expected macro definition"@,
        CommandErrorKind::ExpectedStatement => "expected statement"@,
        CommandErrorKind::ExpectedExpression => "expected expression"@,
        CommandErrorKind::InvalidMacroName => "invalid macro name"@,
        CommandErrorKind::InvalidLiteralEscaping => "invalid literal escaping"@,
        CommandErrorKind::TooManyParameters => "too many parameters"@,
        CommandErrorKind::TooManyBindings => "too many bindings"@,
        CommandErrorKind::UndeclaredBinding => "undeclared binding"@,
        CommandErrorKind::NoSuchCommand => "no such command"@,
        CommandErrorKind::NoSuchFlag => "no such flag"@,
        CommandErrorKind::WrongNumberOfArgs => "wrong number of arguments"@,
        CommandErrorKind::TooManyFlags => "too many flags"@,
        CommandErrorKind::CouldNotSourceFile => "could not source file"@,
        CommandErrorKind::CommandAlreadyExists => "command already exists"@,
        CommandErrorKind::CommandDoesNotAcceptBang => "command does not accept bang"@,
        CommandErrorKind::TooFewArguments => "too few arguments"@,
        CommandErrorKind::TooManyArguments => "too many arguments"@,
        CommandErrorKind::Aborted => "aborted"@,
    }
}

/// A short description of an error, for the status bar.
pub fn error_message(kind: CommandErrorKind) -> (r: &'static str)
    ensures
        r@ == error_text(kind),
{
    match kind {
        CommandErrorKind::UnterminatedQuotedLiteral => "unterminated quoted literal",
        CommandErrorKind::InvalidFlagName => "invalid flag name",
        CommandErrorKind::InvalidBindingName => "invalid binding name",
        CommandErrorKind::AstTooLong => "program too long",
        CommandErrorKind::TooManyMacroCommands => "too many macro commands",
        CommandErrorKind::TooManyLiterals => "too many literals",
        CommandErrorKind::LiteralTooLong => "literal too long",
        CommandErrorKind::ExpectedToken(_) => "unexpected token",
        CommandErrorKind::ExpectedMacroDefinition => "expected macro definition",
        CommandErrorKind::ExpectedStatement => "expected statement",
        CommandErrorKind::ExpectedExpression => "expected expression",
        CommandErrorKind::InvalidMacroName => "invalid macro name",
        CommandErrorKind::InvalidLiteralEscaping => "invalid literal escaping",
        CommandErrorKind::TooManyParameters => "too many parameters",
        CommandErrorKind::TooManyBindings => "too many bindings",
        CommandErrorKind::UndeclaredBinding => "undeclared binding",
        CommandErrorKind::NoSuchCommand => "no such command",
        CommandErrorKind::NoSuchFlag => "no such flag",
        CommandErrorKind::WrongNumberOfArgs => "wrong number of arguments",
        CommandErrorKind::TooManyFlags => "too many flags",
        CommandErrorKind::CouldNotSourceFile => "could not source file",
        CommandErrorKind::CommandAlreadyExists => "command already exists",
        CommandErrorKind::CommandDoesNotAcceptBang => "command does not accept bang",
        CommandErrorKind::TooFewArguments => "too few arguments",
        CommandErrorKind::TooManyArguments => "too many arguments",
        CommandErrorKind::Aborted => "aborted",
    }
}

fn load_history_entry(editor: &mut Editor, index: usize)
    ensures
        final(editor).read_line.input@ == history_text(old(editor).commands.history_view(), index as int),
        final(editor).read_line.prompt == old(editor).read_line.prompt,
        final(editor).commands == old(editor).commands,
        final(editor).mode == old(editor).mode,
        final(editor).status_bar == old(editor).status_bar,
{
    let entry = editor.commands.history_entry(index);
    editor.read_line.input = entry.to_owned();
}

fn command_mode_on_key<H: CommandHost>(editor: &mut Editor, host: &mut H, key: Key, clipboard: &str) -> (r:
    Option<ModeOperation>)
    requires
        old(editor).wf(),
        old(editor).mode.kind == ModeKind::Command,
    ensures
        final(editor).wf(),
        command_key_ok(old(editor), final(editor), key, clipboard@, r),
{
    let poll = editor.read_line.poll(key, clipboard);
    match poll {
        ReadLinePoll::Pending => {
            match key {
                Key::Ctrl(c) => {
                    if c == 'n' || c == 'j' {
                        if let PickerState::NavigatingHistory(i) = editor.mode.command_state.picker_state {
                            let len = editor.commands.history_len();
                            let last = if len > 0 {
                                len - 1
                            } else {
                                0
                            };
                            let next = if i < last {
                                i + 1
                            } else {
                                last
                            };
                            editor.mode.command_state.picker_state = PickerState::NavigatingHistory(next);
                            load_history_entry(editor, next);
                        }
                    } else if c == 'p' || c == 'k' {
                        if let PickerState::NavigatingHistory(i) = editor.mode.command_state.picker_state {
                            let next = if i > 0 {
                                i - 1
                            } else {
                                0
                            };
                            editor.mode.command_state.picker_state = PickerState::NavigatingHistory(next);
                            load_history_entry(editor, next);
                        }
                    } else {
                        update_autocomplete_entries(editor);
                    }
                },
                _ => update_autocomplete_entries(editor),
            }
            None
        },
        ReadLinePoll::Canceled => {
            Mode::change_to(editor, ModeKind::Normal);
            None
        },
        ReadLinePoll::Submitted => {
            let input = editor.read_line.input.clone();
            editor.commands.add_to_history(input.as_str());
            let len = input.as_str().as_bytes().len();
            if len > COMMAND_MAX_LEN {
                let mut message = String::new();
                message.append("command is too long. max is 256 bytes. got ");
                crate::editor_utils::push_decimal(&mut message, len);
                editor.status_bar.kind = MessageKind::Error;
                editor.status_bar.message = message;
                return None;
            }
            let ghost added = editor.commands;
            let ghost status_before = editor.status_bar;
            let mut output = String::new();
            let result = editor.commands.eval(host, input.as_str(), &mut output);
            let op = submit_outcome(&mut editor.status_bar, result);
            let ghost evaluated_commands = editor.commands;
            let ghost evaluated_status = editor.status_bar;
            if editor.mode.kind == ModeKind::Command {
                Mode::change_to(editor, ModeKind::Normal);
            }
            assert(editor.commands == evaluated_commands);
            assert(editor.status_bar == evaluated_status);
            assert(evaluated(&added, &editor.commands, vstd::utf8::encode_utf8(input@), output@, result));
            op
        },
    }
}

/// The command-mode state after the input became `input`.
pub open spec fn autocompleted(history_len: nat, input: Seq<char>, state: State) -> bool {
    if input.len() == 0 {
        state == (State {
            picker_state: PickerState::NavigatingHistory(history_len as usize),
            completion_index: 0,
            completion_target: CompletionTarget::CommandName,
        })
    } else {
        let point = completion_point(vstd::utf8::encode_utf8(input));
        &&& state.picker_state == PickerState::TypingCommand
        &&& state.completion_index as int == point.0
        &&& state.completion_target == point.1
    }
}

/// After the input was edited: with an empty input command mode goes back to
/// browsing the history; otherwise it completes what `completion_point` finds.
fn update_autocomplete_entries(editor: &mut Editor)
    ensures
        final(editor).commands == old(editor).commands,
        final(editor).mode.kind == old(editor).mode.kind,
        final(editor).read_line == old(editor).read_line,
        final(editor).status_bar == old(editor).status_bar,
        autocompleted(
            old(editor).commands.history_view().len(),
            old(editor).read_line.input@,
            final(editor).mode.command_state,
        ),
        old(editor).read_line.input@.len() == 0 ==> final(editor).mode.command_state == (State {
            picker_state: PickerState::NavigatingHistory(
                old(editor).commands.history_view().len() as usize,
            ),
            completion_index: 0,
            completion_target: CompletionTarget::CommandName,
        }),
        old(editor).read_line.input@.len() > 0 ==> {
            let point = completion_point(vstd::utf8::encode_utf8(old(editor).read_line.input@));
            &&& final(editor).mode.command_state.picker_state == PickerState::TypingCommand
            &&& final(editor).mode.command_state.completion_index as int == point.0
            &&& final(editor).mode.command_state.completion_target == point.1
        },
{
    if editor.read_line.input.as_str().unicode_len() == 0 {
        editor.mode.command_state = State {
            picker_state: PickerState::NavigatingHistory(editor.commands.history_len()),
            completion_index: 0,
            completion_target: CompletionTarget::CommandName,
        };
    } else {
        let (index, target) = completion_point_of(editor.read_line.input.as_str());
        editor.mode.command_state = State {
            picker_state: PickerState::TypingCommand,
            completion_index: index,
            completion_target: target,
        };
    }
}

} // verus!
