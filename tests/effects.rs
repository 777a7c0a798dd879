use termcraft::{
    effect_end, green, loading_bar_frame, matrix_frame, matrix_line, rainbow_frame, red,
    spinner_frame, typewriter_step, wiggle_frame, wiggle_line, EffectSettings,
};

#[test]
fn default_settings() {
    let s = EffectSettings::default();
    assert_eq!((s.delay, s.iterations, s.width), (50, 3, 20));
}

#[test]
fn typewriter_steps() {
    assert_eq!(typewriter_step('a', Some(&red())), "\x1b[38;2;255;0;0ma");
    assert_eq!(typewriter_step('a', None), "a");
    assert_eq!(effect_end(Some(&red())), "\x1b[0m");
    assert_eq!(effect_end(None), "");
}

#[test]
fn loading_bar_half() {
    assert_eq!(
        loading_bar_frame(1, 2, 4, &green()),
        "\r\x1b[38;2;0;255;0m[▓▓░░] 1/2\x1b[0m"
    );
}

#[test]
fn loading_bar_rounds_down() {
    assert_eq!(loading_bar_frame(1, 3, 5, &green()), "\r\x1b[38;2;0;255;0m[▓░░░░] 1/3\x1b[0m");
    assert_eq!(loading_bar_frame(3, 3, 5, &green()), "\r\x1b[38;2;0;255;0m[▓▓▓▓▓] 3/3\x1b[0m");
}

#[test]
fn loading_bar_zero_total() {
    assert_eq!(loading_bar_frame(0, 0, 3, &green()), "\r\x1b[38;2;0;255;0m[░░░] 0/0\x1b[0m");
}

#[test]
fn wiggle_uppercases_one_position() {
    assert_eq!(wiggle_frame("abc", 1, None), "\raBc");
    assert_eq!(wiggle_frame("ABC", 0, None), "\rAbc");
    assert_eq!(wiggle_frame("ab", 5, Some(&red())), "\r\x1b[38;2;255;0;0mab");
}

#[test]
fn wiggle_keeps_first_of_longer_case_forms() {
    assert_eq!(wiggle_frame("ßx", 0, None), "\rSx");
}

#[test]
fn wiggle_line_picks_by_position() {
    assert_eq!(wiggle_line(&vec!['a', 'b'], &vec!['X', 'Y'], 1, None), "\raY");
}

#[test]
fn matrix_line_reveals_prefix() {
    assert_eq!(matrix_line(&vec!['a', 'b', 'c'], 0, &vec![0, 1, 25], None), "\ra@?");
    assert_eq!(matrix_line(&vec!['a', 'b', 'c'], 2, &vec![0, 1, 25], None), "\rabc");
}

#[test]
fn matrix_frame_hides_the_rest() {
    let symbols = "!@#$%^&*()_+-=[]{}|;:,.<>?";
    let s = matrix_frame("abcd", 1, None);
    let cs: Vec<char> = s.chars().collect();
    assert_eq!(cs.len(), 5);
    assert_eq!(&cs[..3], &['\r', 'a', 'b']);
    assert!(symbols.contains(cs[3]));
    assert!(symbols.contains(cs[4]));
}

#[test]
fn rainbow_rotation() {
    assert_eq!(
        rainbow_frame("ab", 0),
        "\r\x1b[38;2;255;0;0ma\x1b[38;2;255;127;0mb\x1b[0m"
    );
    assert_eq!(
        rainbow_frame("ab", 6),
        "\r\x1b[38;2;143;0;255ma\x1b[38;2;255;0;0mb\x1b[0m"
    );
}

#[test]
fn spinner_glyphs() {
    assert_eq!(spinner_frame(5, 10, &red(), 0), "\r\x1b[38;2;255;0;0m/ 5/10");
    assert_eq!(spinner_frame(9, 10, &red(), 1), "\r\x1b[38;2;255;0;0m⠙ 9/10");
    assert_eq!(spinner_frame(4, 4, &red(), 2), "\r\x1b[38;2;255;0;0m→ 4/4");
}
