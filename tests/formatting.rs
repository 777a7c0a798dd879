use termcraft::{box_text, center_text, center_text_in, colored, create_table, fade_text, blue, red, DEFAULT_WIDTH};

#[test]
fn center_hi_in_eighty() {
    let s = center_text_in("hi", 80);
    assert_eq!(s.chars().count(), 41);
    assert!(s.ends_with("hi"));
    assert!(s[..39].chars().all(|c| c == ' '));
}

#[test]
fn center_odd_leftover_goes_right() {
    assert_eq!(center_text_in("abc", 8), "  abc");
}

#[test]
fn center_too_long_is_unpadded() {
    assert_eq!(center_text_in("hello", 3), "hello");
}

#[test]
fn center_counts_characters() {
    assert_eq!(center_text_in("éé", 6), "  éé");
}

#[test]
fn center_in_terminal() {
    let s = center_text("hi");
    assert!(s.ends_with("hi"));
    assert!(s.trim_start_matches(' ') == "hi");
    assert_eq!(DEFAULT_WIDTH, 80);
}

#[test]
fn box_two_lines() {
    assert_eq!(box_text("ab\ncd"), "╔════╗\n║ ab ║\n║ cd ║\n╚════╝");
}

#[test]
fn box_pads_to_longest() {
    assert_eq!(box_text("a\r\nbcd\n"), "╔═════╗\n║ a   ║\n║ bcd ║\n╚═════╝");
}

#[test]
fn box_empty() {
    assert_eq!(box_text(""), "╔══╗\n╚══╝");
}

#[test]
fn table_widths_and_header() {
    let t = create_table(&["A", "BB"], &vec![vec!["x".to_string(), "y".to_string()]], None);
    let lines: Vec<&str> = t.lines().collect();
    assert_eq!(lines[0], "╔═══╦════╗");
    assert_eq!(lines[1], "║ A │ BB ║");
    assert_eq!(lines[2], "╠═══╬════╣");
    assert_eq!(lines[3], "║ x │ y  ║");
    assert_eq!(lines[4], "╚═══╩════╝");
    assert_eq!(lines.len(), 5);
    assert!(t.ends_with('\n'));
}

#[test]
fn table_short_row_and_color() {
    let t = create_table(&["H1", "H2"], &vec![vec!["long".to_string()]], Some(&red()));
    let on = "\x1b[38;2;255;0;0m";
    let off = "\x1b[0m";
    let expected = format!(
        "{on}╔══════╦════╗{off}\n{on}║ H1   │ H2 ║{off}\n{on}╠══════╬════╣{off}\n{on}║ long │    ║{off}\n{on}╚══════╩════╝{off}\n"
    );
    assert_eq!(t, expected);
}

#[test]
fn table_without_rows() {
    let t = create_table(&["Name"], &vec![], None);
    assert_eq!(t, "╔══════╗\n║ Name ║\n╠══════╣\n╚══════╝\n");
}

#[test]
fn colored_text() {
    assert_eq!(colored("x", &red()), "\x1b[38;2;255;0;0mx\x1b[0m");
}

#[test]
fn fade_text_spreads_colors() {
    let s = fade_text("abcd", &[red(), blue()]);
    assert_eq!(
        s,
        "\x1b[38;2;255;0;0ma\x1b[38;2;255;0;0mb\x1b[38;2;0;0;255mc\x1b[38;2;0;0;255md\x1b[0m"
    );
}

#[test]
fn fade_text_empty_inputs() {
    assert_eq!(fade_text("", &[red()]), "");
    assert_eq!(fade_text("abc", &[]), "");
}
