use termcraft::{clear_screen_sequence, hide_cursor_sequence, set_title_sequence, show_cursor_sequence};

#[test]
fn control_sequences() {
    assert_eq!(clear_screen_sequence(), "\x1b[2J\x1b[1;1H");
    assert_eq!(set_title_sequence("demo"), "\x1b]0;demo\x07");
    assert_eq!(hide_cursor_sequence(), "\x1b[?25l");
    assert_eq!(show_cursor_sequence(), "\x1b[?25h");
}

#[test]
fn control_sequences_repeat_identically() {
    assert_eq!(clear_screen_sequence(), clear_screen_sequence());
    assert_eq!(set_title_sequence("x"), set_title_sequence("x"));
    assert_eq!(hide_cursor_sequence(), hide_cursor_sequence());
    assert_eq!(show_cursor_sequence(), show_cursor_sequence());
}
