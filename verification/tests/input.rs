use lyra::input::TextInput;

#[test]
fn characters_go_in_at_the_cursor() {
    let mut t = TextInput::new("ac");
    t.left();
    t.insert('b');
    assert_eq!(t.as_string(), "abc");
    t.end();
    t.insert('é');
    assert_eq!(t.as_string(), "abcé");
    t.home();
    t.delete();
    assert_eq!(t.as_string(), "bcé");
    t.backspace();
    assert_eq!(t.as_string(), "bcé");
    t.end();
    t.backspace();
    assert_eq!(t.as_string(), "bc");
    t.delete();
    assert_eq!(t.as_string(), "bc");
    t.right();
    t.insert('d');
    assert_eq!(t.as_string(), "bcd");
}

#[test]
fn backspace_undoes_insert() {
    let mut t = TextInput::new("hello");
    t.left();
    t.left();
    t.insert('X');
    t.backspace();
    assert_eq!(t.as_string(), "hello");
    t.insert('Y');
    assert_eq!(t.as_string(), "helYlo");
}

#[test]
fn cursor_is_told_by_line_and_column() {
    let mut t = TextInput::new("ab\ncde\n");
    assert_eq!(t.line_col(), (2, 0));
    t.left();
    assert_eq!(t.line_col(), (1, 3));
    t.home();
    assert_eq!(t.line_col(), (0, 0));
    t.right();
    assert_eq!(t.line_col(), (0, 1));
    let e = TextInput::new("");
    assert_eq!(e.line_col(), (0, 0));
}
