use pepper::arguments::CommandTokenizer;

#[test]
fn command_tokens() {
    let mut tokens = CommandTokenizer::new("cmd arg");
    assert_eq!(Some("cmd"), tokens.next());
    assert_eq!(Some("arg"), tokens.next());
    assert_eq!(None, tokens.next());

    let mut tokens = CommandTokenizer::new("cmd 'arg0 \"arg1 ");
    assert_eq!(Some("cmd"), tokens.next());
    assert_eq!(Some("'arg0"), tokens.next());
    assert_eq!(Some("\"arg1"), tokens.next());
    assert_eq!(None, tokens.next());

    let mut tokens = CommandTokenizer::new("cmd arg0'arg1 ");
    assert_eq!(Some("cmd"), tokens.next());
    assert_eq!(Some("arg0'arg1"), tokens.next());
    assert_eq!(None, tokens.next());

    let mut tokens = CommandTokenizer::new("cmd arg0\"arg1 ");
    assert_eq!(Some("cmd"), tokens.next());
    assert_eq!(Some("arg0\"arg1"), tokens.next());
    assert_eq!(None, tokens.next());

    let mut tokens = CommandTokenizer::new("cmd 'arg\"0' \"arg'1\"");
    assert_eq!(Some("cmd"), tokens.next());
    assert_eq!(Some("arg\"0"), tokens.next());
    assert_eq!(Some("arg'1"), tokens.next());
    assert_eq!(None, tokens.next());

    let mut tokens = CommandTokenizer::new("cmd [[arg]]");
    assert_eq!(Some("cmd"), tokens.next());
    assert_eq!(Some("arg"), tokens.next());
    assert_eq!(None, tokens.next());

    let mut tokens = CommandTokenizer::new("cmd [==[arg]]=]]==]");
    assert_eq!(Some("cmd"), tokens.next());
    assert_eq!(Some("arg]]=]"), tokens.next());
    assert_eq!(None, tokens.next());
}

#[test]
fn unbalanced_brackets_are_plain_text() {
    let mut tokens = CommandTokenizer::new("[x] [[y");
    assert_eq!(Some("[x]"), tokens.next());
    assert_eq!(Some("[[y"), tokens.next());
    assert_eq!(None, tokens.next());
    let mut tokens = CommandTokenizer::new(" \t ");
    assert_eq!(None, tokens.next());
}
