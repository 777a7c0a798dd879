use termcraft::{create_banner, Banner, Position};

#[test]
fn top_text_starts_at_first_line() {
    let b = Banner::new("AAAA\nBB\nCCCC", "hi", 1, Position::Top);
    assert_eq!(b.render_in(10), "AAAA     hi\nBB        \nCCCC");
}

#[test]
fn middle_text() {
    let b = Banner::new("A\nB\nC\nD\nE", "x\ny", 2, Position::Middle);
    assert_eq!(b.render_in(1), "A  \nB  x\nC  y\nD  \nE");
}

#[test]
fn bottom_text() {
    let b = Banner::new("A\nB\nC", "x", 0, Position::Bottom);
    assert_eq!(b.render_in(3), "A \nB \nC x");
}

#[test]
fn text_longer_than_art_is_clamped() {
    let b = Banner::new("A", "x\ny\nz", 1, Position::Bottom);
    assert_eq!(b.render_in(1), "A x");
    let m = Banner::new("A", "x\ny\nz", 1, Position::Middle);
    assert_eq!(m.render_in(1), "A x");
}

#[test]
fn create_banner_renders() {
    let s = create_banner("AB\nCD", "t", 1, Position::Top);
    let lines: Vec<&str> = s.lines().collect();
    assert_eq!(lines.len(), 2);
    assert!(lines[0].starts_with("AB "));
    assert!(lines[0].ends_with('t'));
    assert_eq!(lines[1], "CD");
}
