use termcraft::{black, blue, fade_color, green, hsv_to_color, random_pleasing_color, red, white, Color, RESET};

#[test]
fn new_keeps_components() {
    for &(r, g, b) in &[(0u8, 0u8, 0u8), (1, 2, 3), (255, 128, 7), (255, 255, 255)] {
        assert_eq!(Color::new(r, g, b).rgb(), (r, g, b));
    }
}

#[test]
fn palette_values() {
    assert_eq!(red().rgb(), (255, 0, 0));
    assert_eq!(green().rgb(), (0, 255, 0));
    assert_eq!(blue().rgb(), (0, 0, 255));
    assert_eq!(white().rgb(), (255, 255, 255));
    assert_eq!(black().rgb(), (0, 0, 0));
    assert_eq!(RESET, "\x1b[0m");
}

#[test]
fn cube_index_of_primaries() {
    assert_eq!(Color::new(255, 0, 0).to_256_color(), 196);
    assert_eq!(Color::new(0, 0, 0).to_256_color(), 16);
    assert_eq!(Color::new(255, 255, 255).to_256_color(), 231);
    assert_eq!(Color::new(100, 150, 200).to_256_color(), 16 + 36 * 1 + 6 * 2 + 3);
}

#[test]
fn cube_index_is_bounded_and_repeatable() {
    for r in (0..=255u16).step_by(17) {
        for g in (0..=255u16).step_by(51) {
            for b in (0..=255u16).step_by(85) {
                let c = Color::new(r as u8, g as u8, b as u8);
                let i = c.to_256_color();
                assert!((16..=231).contains(&i));
                assert_eq!(i, c.to_256_color());
            }
        }
    }
}

#[test]
fn fade_three_steps() {
    let f = fade_color(&black(), &white(), 3);
    let v: Vec<(u8, u8, u8)> = f.iter().map(|c| c.rgb()).collect();
    assert_eq!(v, vec![(0, 0, 0), (127, 127, 127), (255, 255, 255)]);
}

#[test]
fn fade_single_step_is_start() {
    let f = fade_color(&red(), &blue(), 1);
    assert_eq!(f.len(), 1);
    assert_eq!(f[0].rgb(), (255, 0, 0));
}

#[test]
fn fade_zero_steps_is_empty() {
    assert!(fade_color(&red(), &blue(), 0).is_empty());
}

#[test]
fn fade_ends_and_stays_between() {
    let s = Color::new(10, 200, 50);
    let e = Color::new(250, 20, 50);
    let f = fade_color(&s, &e, 7);
    assert_eq!(f.len(), 7);
    assert_eq!(f[0].rgb(), (10, 200, 50));
    assert_eq!(f[6].rgb(), (250, 20, 50));
    for c in &f {
        let (r, g, b) = c.rgb();
        assert!((10..=250).contains(&r));
        assert!((20..=200).contains(&g));
        assert_eq!(b, 50);
    }
    for w in f.windows(2) {
        assert!(w[0].rgb().0 <= w[1].rgb().0);
        assert!(w[0].rgb().1 >= w[1].rgb().1);
    }
}

#[test]
fn hsv_conversion_values() {
    assert_eq!(hsv_to_color(0, 100, 100).rgb(), (255, 0, 0));
    assert_eq!(hsv_to_color(60, 100, 100).rgb(), (255, 255, 0));
    assert_eq!(hsv_to_color(120, 100, 100).rgb(), (0, 255, 0));
    assert_eq!(hsv_to_color(240, 100, 100).rgb(), (0, 0, 255));
    assert_eq!(hsv_to_color(30, 50, 80).rgb(), (204, 153, 102));
}

#[test]
fn random_color_is_bright() {
    for _ in 0..50 {
        let (r, g, b) = random_pleasing_color().rgb();
        let hi = r.max(g).max(b);
        let lo = r.min(g).min(b);
        assert!(hi >= 178);
        assert!(lo <= hi - hi * 7 / 10 + 1);
    }
}

#[test]
fn escape_sequence_text() {
    assert_eq!(Color::new(12, 200, 7).escape(), "\x1b[38;2;12;200;7m");
    assert_eq!(red().escape(), "\x1b[38;2;255;0;0m");
}

#[test]
fn escape_round_trip() {
    for &(r, g, b) in &[(0u8, 0u8, 0u8), (9, 10, 99), (100, 255, 1), (255, 255, 255)] {
        let s = Color::new(r, g, b).escape();
        let body = s.strip_prefix("\x1b[38;2;").unwrap().strip_suffix('m').unwrap();
        let parts: Vec<u8> = body.split(';').map(|p| p.parse().unwrap()).collect();
        assert_eq!(parts, vec![r, g, b]);
    }
}

#[test]
fn from_escape_recovers_every_sampled_color() {
    for r in (0..=255u16).step_by(15) {
        for g in (0..=255u16).step_by(51) {
            for b in [0u8, 9, 10, 99, 100, 255] {
                let c = Color::new(r as u8, g as u8, b);
                let back = Color::from_escape(&c.escape()).unwrap();
                assert_eq!(back.rgb(), (r as u8, g as u8, b));
            }
        }
    }
}

#[test]
fn from_escape_rejects_malformed() {
    assert!(Color::from_escape("\x1b[38;2;256;0;0m").is_none());
    assert!(Color::from_escape("\x1b[38;2;1;2m").is_none());
    assert!(Color::from_escape("\x1b[38;2;1;2;3").is_none());
    assert!(Color::from_escape("\x1b[38;2;1;2;3mx").is_none());
    assert!(Color::from_escape("\x1b[38;5;1;2;3m").is_none());
    assert!(Color::from_escape("\x1b[38;2;;2;3m").is_none());
    assert!(Color::from_escape("").is_none());
    assert!(Color::from_escape(RESET).is_none());
}

#[test]
fn from_escape_accepts_leading_zeros() {
    assert_eq!(Color::from_escape("\x1b[38;2;001;02;3m").unwrap().rgb(), (1, 2, 3));
}
