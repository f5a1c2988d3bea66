use pepper::buffer_position::BufferPosition;
use pepper::command::CommandTokenKind::{
    Binding, CloseParenthesis, EndOfLine, Equals, Flag, Literal, OpenParenthesis, QuotedLiteral,
};
use pepper::command::{tokenize, CommandErrorKind, CommandTokenKind, CommandTokenizer};

fn pos(line: usize, column: usize) -> BufferPosition {
    BufferPosition::line_col(line as _, column as _)
}

fn collect<'a>(source: &'a str) -> Vec<(CommandTokenKind, &'a str, BufferPosition)> {
    let mut tokenizer = CommandTokenizer::new(source);
    let mut tokens = Vec::new();
    loop {
        let token = tokenizer.next().unwrap();
        match token.kind {
            CommandTokenKind::EndOfSource => break,
            _ => {
                let text = &source[token.range()];
                tokens.push((token.kind, text, token.position))
            }
        }
    }
    tokens
}

#[test]
fn command_tokenizer() {
    assert_eq!(0, collect("").len());
    assert_eq!(0, collect("  ").len());
    assert_eq!(vec![(Literal, "command", pos(0, 0)),], collect("command"),);
    assert_eq!(vec![(QuotedLiteral, "'text'", pos(0, 0)),], collect("'text'"),);
    assert_eq!(
        vec![
            (Literal, "cmd", pos(0, 0)),
            (OpenParenthesis, "(", pos(0, 4)),
            (Literal, "subcmd", pos(0, 5)),
            (CloseParenthesis, ")", pos(0, 11)),
        ],
        collect("cmd (subcmd)"),
    );
    assert_eq!(
        vec![
            (Literal, "cmd", pos(0, 0)),
            (Binding, "$binding", pos(0, 4)),
            (Flag, "-flag", pos(0, 13)),
            (Equals, "=", pos(0, 18)),
            (Literal, "value", pos(0, 19)),
            (Equals, "=", pos(0, 25)),
            (Literal, "not-flag", pos(0, 27)),
        ],
        collect("cmd $binding -flag=value = not-flag"),
    );
    assert_eq!(
        vec![
            (Literal, "cmd0", pos(0, 0)),
            (Literal, "cmd1", pos(0, 5)),
            (EndOfLine, "\n\n \t \n  ", pos(0, 12)),
            (Literal, "cmd2", pos(3, 2)),
        ],
        collect("cmd0 cmd1 \t\r\n\n \t \n  cmd2"),
    );
}

#[test]
fn tokenizer_keeps_giving_end_of_source() {
    let mut tokenizer = CommandTokenizer::new("a");
    assert_eq!(CommandTokenKind::Literal, tokenizer.next().unwrap().kind);
    for _ in 0..3 {
        let token = tokenizer.next().unwrap();
        assert_eq!(CommandTokenKind::EndOfSource, token.kind);
        assert_eq!(1..1, token.range());
    }
}

#[test]
fn tokenizer_errors() {
    let mut t = CommandTokenizer::new("cmd 'abc");
    t.next().unwrap();
    let e = t.next().unwrap_err();
    assert_eq!(CommandErrorKind::UnterminatedQuotedLiteral, e.kind);
    assert_eq!(pos(0, 4), e.position);
    let mut t = CommandTokenizer::new("- x");
    assert_eq!(CommandErrorKind::InvalidFlagName, t.next().unwrap_err().kind);
    let mut t = CommandTokenizer::new("  $");
    let e = t.next().unwrap_err();
    assert_eq!(CommandErrorKind::InvalidBindingName, e.kind);
    assert_eq!(pos(0, 2), e.position);
}

#[test]
fn quoted_literal_with_escapes_and_line_break() {
    let tokens = collect("'a\\'b' \"x\ny\" z");
    assert_eq!(CommandTokenKind::QuotedLiteral, tokens[0].0);
    assert_eq!("'a\\'b'", tokens[0].1);
    assert_eq!("\"x\ny\"", tokens[1].1);
    assert_eq!(pos(1, 3), tokens[2].2);
}

#[test]
fn tokens_cover_the_source_but_blanks() {
    let source = "cmd  -f=(x 'y z')\n\n  $b";
    let tokens = tokenize(source).unwrap();
    let mut rebuilt = String::new();
    let mut previous_end = 0;
    for token in &tokens {
        let gap = &source[previous_end..token.range().start];
        assert!(gap.bytes().all(|b| b == b' ' || b == b'\t' || b == b'\r'));
        rebuilt.push_str(&source[token.range()]);
        previous_end = token.range().end;
    }
    assert_eq!(source.len(), previous_end);
    let without_blanks: String = source.chars().filter(|c| *c != ' ').collect();
    let rebuilt_without_blanks: String = rebuilt.chars().filter(|c| *c != ' ').collect();
    assert_eq!(without_blanks, rebuilt_without_blanks);
    assert_eq!(CommandTokenKind::EndOfSource, tokens.last().unwrap().kind);
}
