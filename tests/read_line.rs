use pepper::client_event::Key;
use pepper::editor_utils::{MessageKind, ReadLine, ReadLinePoll, StatusBar, StringPool};

fn typed(text: &str) -> ReadLine {
    let mut read_line = ReadLine::new();
    for c in text.chars() {
        assert_eq!(ReadLinePoll::Pending, read_line.poll(Key::Char(c), ""));
    }
    read_line
}

#[test]
fn ctrl_u_clears_the_input() {
    let mut read_line = typed("abc def");
    assert_eq!(ReadLinePoll::Pending, read_line.poll(Key::Ctrl('u'), ""));
    assert_eq!("", read_line.input());
    let mut read_line = typed("abc");
    read_line.poll(Key::Home, "");
    assert_eq!("", read_line.input());
}

#[test]
fn backspace_removes_one_character() {
    let mut read_line = typed("aé");
    read_line.poll(Key::Backspace, "");
    assert_eq!("a", read_line.input());
    read_line.poll(Key::Ctrl('h'), "");
    assert_eq!("", read_line.input());
    read_line.poll(Key::Backspace, "");
    assert_eq!("", read_line.input());
}

#[test]
fn ctrl_w_removes_the_last_word() {
    let mut read_line = typed("open some_file.txt  ");
    read_line.poll(Key::Ctrl('w'), "");
    assert_eq!("open some_file.", read_line.input());
    read_line.poll(Key::Ctrl('w'), "");
    assert_eq!("open ", read_line.input());
    read_line.poll(Key::Ctrl('w'), "");
    assert_eq!("", read_line.input());
}

#[test]
fn submit_cancel_and_paste() {
    let mut read_line = typed("ab");
    assert_eq!(ReadLinePoll::Pending, read_line.poll(Key::Ctrl('y'), "cd"));
    assert_eq!("abcd", read_line.input());
    assert_eq!(ReadLinePoll::Submitted, read_line.poll(Key::Enter, ""));
    assert_eq!(ReadLinePoll::Canceled, read_line.poll(Key::Esc, ""));
    assert_eq!(ReadLinePoll::Pending, read_line.poll(Key::Tab, ""));
    assert_eq!("abcd", read_line.input());
    read_line.set_prompt(":");
    assert_eq!(":", read_line.prompt());
}

#[test]
fn status_bar_messages() {
    let mut status_bar = StatusBar::new();
    status_bar.write(MessageKind::Error).str("bad");
    assert_eq!((MessageKind::Error, "bad"), status_bar.message());
    status_bar.clear();
    assert_eq!((MessageKind::Error, ""), status_bar.message());
}

#[test]
fn string_pool_hands_out_strings() {
    let mut pool = StringPool::new();
    assert_eq!("", pool.acquire());
    let s = pool.acquire_with("abc");
    assert_eq!("abc", s);
    pool.release(s);
    assert_eq!("xy", pool.acquire_with("xy"));
}
