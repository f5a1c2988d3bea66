use pepper::manager::{CommandManager, HISTORY_CAPACITY};

#[test]
fn history_ignores_empty_and_whitespace_entries() {
    let mut commands = CommandManager::new(Vec::new());
    commands.add_to_history("");
    assert_eq!(0, commands.history_len());
    commands.add_to_history(" abc");
    assert_eq!(0, commands.history_len());
    commands.add_to_history("\tabc");
    assert_eq!(0, commands.history_len());
}

#[test]
fn history_does_not_repeat_the_latest_entry() {
    let mut commands = CommandManager::new(Vec::new());
    commands.add_to_history("abc");
    commands.add_to_history("abc");
    assert_eq!(1, commands.history_len());
    commands.add_to_history("def");
    commands.add_to_history("abc");
    assert_eq!(3, commands.history_len());
    assert_eq!("abc", commands.history_entry(0));
    assert_eq!("def", commands.history_entry(1));
    assert_eq!("abc", commands.history_entry(2));
    assert_eq!("", commands.history_entry(3));
}

#[test]
fn history_drops_the_oldest_entry_past_capacity() {
    let mut commands = CommandManager::new(Vec::new());
    for i in 0..HISTORY_CAPACITY + 2 {
        commands.add_to_history(&format!("entry{}", i));
    }
    assert_eq!(HISTORY_CAPACITY, commands.history_len());
    assert_eq!("entry2", commands.history_entry(0));
    assert_eq!(
        format!("entry{}", HISTORY_CAPACITY + 1),
        commands.history_entry(HISTORY_CAPACITY - 1)
    );
}
