use vstd::prelude::*;
use crate::text::push_chars;
use crate::text::chars_of;

verus! {

/// Clears the screen and moves the cursor to the top left corner.
pub open spec fn clear_screen_of() -> Seq<char> {
    seq!['\x1B', '[', '2', 'J', '\x1B', '[', '1', ';', '1', 'H']
}

/// Sets the window title to `t`.
pub open spec fn set_title_of(t: Seq<char>) -> Seq<char> {
    seq!['\x1B', ']', '0', ';'] + t + seq!['\x07']
}

/// Hides the cursor.
pub open spec fn hide_cursor_of() -> Seq<char> {
    seq!['\x1B', '[', '?', '2', '5', 'l']
}

/// Shows the cursor.
pub open spec fn show_cursor_of() -> Seq<char> {
    seq!['\x1B', '[', '?', '2', '5', 'h']
}

/// The sequence that clears the screen and homes the cursor.
pub fn clear_screen_sequence() -> (r: String)
    ensures
        r@ == clear_screen_of(),
{
    let mut r = String::new();
    r.push('\x1B');
    r.push('[');
    r.push('2');
    r.push('J');
    r.push('\x1B');
    r.push('[');
    r.push('1');
    r.push(';');
    r.push('1');
    r.push('H');
    assert(r@ =~= clear_screen_of());
    r
}

/// The sequence that sets the window title to `title`.
pub fn set_title_sequence(title: &str) -> (r: String)
    ensures
        r@ == set_title_of(title@),
{
    let mut r = String::new();
    r.push('\x1B');
    r.push(']');
    r.push('0');
    r.push(';');
    let t = chars_of(title);
    push_chars(&mut r, &t);
    r.push('\x07');
    assert(r@ =~= set_title_of(title@));
    r
}

/// The sequence that hides the cursor.
pub fn hide_cursor_sequence() -> (r: String)
    ensures
        r@ == hide_cursor_of(),
{
    let mut r = String::new();
    r.push('\x1B');
    r.push('[');
    r.push('?');
    r.push('2');
    r.push('5');
    r.push('l');
    assert(r@ =~= hide_cursor_of());
    r
}

/// The sequence that shows the cursor.
pub fn show_cursor_sequence() -> (r: String)
    ensures
        r@ == show_cursor_of(),
{
    let mut r = String::new();
    r.push('\x1B');
    r.push('[');
    r.push('?');
    r.push('2');
    r.push('5');
    r.push('h');
    assert(r@ =~= show_cursor_of());
    r
}

} // verus!
