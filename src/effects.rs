use vstd::prelude::*;
use crate::colors::{escape_of, push_escape, push_reset, random_in, reset_seq, Color};
use crate::formatting::{color_off, color_on, opt_view};
use crate::text::{chars_of, dec, push_dec, push_repeat, rep};

verus! {

/// Settings shared by the timed effects.
pub struct EffectSettings {
    /// Pause between frames, in milliseconds.
    pub delay: u64,
    /// How many times an effect runs through its sequence.
    pub iterations: usize,
    /// Width of the loading bar, in characters.
    pub width: usize,
}

impl Default for EffectSettings {
    fn default() -> (s: Self)
        ensures
            s.delay == 50,
            s.iterations == 3,
            s.width == 20,
    {
        EffectSettings { delay: 50, iterations: 3, width: 20 }
    }
}

/// Relies on `char::to_uppercase`: the first character of `c`'s uppercase form, `c`
/// itself when that form is empty.
pub uninterp spec fn upper_of(c: char) -> char;

/// Relies on `char::to_lowercase`: the first character of `c`'s lowercase form, `c`
/// itself when that form is empty.
pub uninterp spec fn lower_of(c: char) -> char;

/// Relies on `char::to_uppercase`, keeping the first character of the result.
#[verifier::external_body]
fn first_upper(c: char) -> (r: char)
    ensures
        r == upper_of(c),
{
    c.to_uppercase().next().unwrap_or(c)
}

/// Relies on `char::to_lowercase`, keeping the first character of the result.
#[verifier::external_body]
fn first_lower(c: char) -> (r: char)
    ensures
        r == lower_of(c),
{
    c.to_lowercase().next().unwrap_or(c)
}

/// The optional color's escape sequence, for frames that go on from the first column.
pub open spec fn frame_start(c: Option<(u8, u8, u8)>) -> Seq<char> {
    seq!['\r'] + color_on(c)
}

/// A typewriter step: the character `ch`, preceded by the color when there is one.
pub fn typewriter_step(ch: char, color: Option<&Color>) -> (r: String)
    ensures
        r@ == color_on(opt_view(color)) + seq![ch],
{
    let mut r = String::new();
    match color {
        Some(c) => push_escape(&mut r, c),
        None => {},
    }
    r.push(ch);
    assert(r@ =~= color_on(opt_view(color)) + seq![ch]);
    r
}

/// What ends an effect: the reset sequence when it was colored, nothing otherwise.
pub fn effect_end(color: Option<&Color>) -> (r: String)
    ensures
        r@ == color_off(opt_view(color)),
{
    let mut r = String::new();
    match color {
        Some(_) => push_reset(&mut r),
        None => {},
    }
    assert(r@ =~= color_off(opt_view(color)));
    r
}

fn push_frame_start(s: &mut String, color: Option<&Color>)
    ensures
        final(s)@ == old(s)@ + frame_start(opt_view(color)),
{
    s.push('\r');
    match color {
        Some(c) => push_escape(s, c),
        None => {},
    }
    assert(s@ =~= old(s)@ + frame_start(opt_view(color)));
}

/// Filled cells of a loading bar `width` wide at step `i` of `total`.
pub open spec fn filled(i: nat, total: nat, width: nat) -> nat {
    if total == 0 { 0 } else { i * width / total }
}

/// Frame `i` of a loading bar: `[`, the filled and the empty cells, `]`, and `i/total`.
pub open spec fn loading_bar_of(i: nat, total: nat, width: nat, c: (u8, u8, u8)) -> Seq<char> {
    let p = filled(i, total, width);
    seq!['\r'] + escape_of(c) + seq!['['] + rep('▓', p) + rep('░', (width - p) as nat) + seq![
        ']',
        ' ',
    ] + dec(i) + seq!['/'] + dec(total) + reset_seq()
}

/// Frame `i` of a loading bar of `total` steps, `width` cells wide, in `color`.
pub fn loading_bar_frame(i: usize, total: usize, width: usize, color: &Color) -> (r: String)
    requires
        i <= total,
    ensures
        r@ == loading_bar_of(i as nat, total as nat, width as nat, color@),
{
    let p: usize = if total == 0 {
        0
    } else {
        proof {
            assert((i as int) * (width as int) <= 0xffff_ffff_ffff_ffff * 0xffff_ffff_ffff_ffff)
                by (nonlinear_arith) requires i <= 0xffff_ffff_ffff_ffff, width <= 0xffff_ffff_ffff_ffff;
            assert((i as int) * (width as int) / (total as int) <= width) by (nonlinear_arith)
                requires i <= total, total > 0;
        }
        ((i as u128) * (width as u128) / (total as u128)) as usize
    };
    let mut r = String::new();
    r.push('\r');
    push_escape(&mut r, color);
    r.push('[');
    push_repeat(&mut r, '▓', p);
    push_repeat(&mut r, '░', width - p);
    r.push(']');
    r.push(' ');
    push_dec(&mut r, i as u64);
    r.push('/');
    push_dec(&mut r, total as u64);
    push_reset(&mut r);
    assert(r@ =~= loading_bar_of(i as nat, total as nat, width as nat, color@));
    r
}

/// The characters of a wiggle frame: position `i` from `upper`, the others from `lower`.
pub open spec fn wiggle_chars(lower: Seq<char>, upper: Seq<char>, i: int) -> Seq<char> {
    Seq::new(lower.len(), |j: int| if j == i { upper[j] } else { lower[j] })
}

/// A wiggle frame from the lowercase and uppercase forms of each character: position `i`
/// uppercase, every other lowercase.
pub fn wiggle_line(lower: &Vec<char>, upper: &Vec<char>, i: usize, color: Option<&Color>) -> (r: String)
    requires
        lower@.len() == upper@.len(),
    ensures
        r@ == frame_start(opt_view(color)) + wiggle_chars(lower@, upper@, i as int),
{
    let mut r = String::new();
    push_frame_start(&mut r, color);
    let ghost start = r@;
    let mut j: usize = 0;
    while j < lower.len()
        invariant
            lower@.len() == upper@.len(),
            j <= lower@.len(),
            r@ == start + wiggle_chars(lower@, upper@, i as int).take(j as int),
        decreases lower.len() - j,
    {
        if j == i {
            r.push(upper[j]);
        } else {
            r.push(lower[j]);
        }
        j = j + 1;
        assert(r@ =~= start + wiggle_chars(lower@, upper@, i as int).take(j as int));
    }
    assert(wiggle_chars(lower@, upper@, i as int).take(j as int) =~= wiggle_chars(lower@, upper@, i as int));
    r
}

/// Frame `i` of the wiggle effect on `text`: its character `i` in uppercase, the others in
/// lowercase.
pub fn wiggle_frame(text: &str, i: usize, color: Option<&Color>) -> (r: String)
    ensures
        r@ == frame_start(opt_view(color)) + wiggle_chars(
            text@.map_values(|c: char| lower_of(c)),
            text@.map_values(|c: char| upper_of(c)),
            i as int,
        ),
{
    let t = chars_of(text);
    let mut lower: Vec<char> = Vec::new();
    let mut upper: Vec<char> = Vec::new();
    let mut j: usize = 0;
    while j < t.len()
        invariant
            t@ == text@,
            j <= t@.len(),
            lower@ == text@.map_values(|c: char| lower_of(c)).take(j as int),
            upper@ == text@.map_values(|c: char| upper_of(c)).take(j as int),
        decreases t.len() - j,
    {
        lower.push(first_lower(t[j]));
        upper.push(first_upper(t[j]));
        j = j + 1;
        assert(lower@ =~= text@.map_values(|c: char| lower_of(c)).take(j as int));
        assert(upper@ =~= text@.map_values(|c: char| upper_of(c)).take(j as int));
    }
    assert(lower@ =~= text@.map_values(|c: char| lower_of(c)));
    assert(upper@ =~= text@.map_values(|c: char| upper_of(c)));
    wiggle_line(&lower, &upper, i, color)
}

/// The symbols that stand for characters not yet revealed.
pub open spec fn symbols() -> Seq<char> {
    seq![
        '!', '@', '#', '$', '%', '^', '&', '*', '(', ')', '_', '+', '-', '=', '[', ']', '{', '}',
        '|', ';', ':', ',', '.', '<', '>', '?',
    ]
}

/// The characters of a matrix frame: `text` up to position `i`, then symbol `picks[j]`
/// at each later position `j`.
pub open spec fn matrix_chars(text: Seq<char>, i: int, picks: Seq<usize>) -> Seq<char> {
    Seq::new(text.len(), |j: int| if j <= i { text[j] } else { symbols()[picks[j] as int] })
}

/// A matrix frame: the characters of `text` up to position `i` as they are, each later
/// one replaced by the symbol that `picks` chooses for its position.
pub fn matrix_line(text: &Vec<char>, i: usize, picks: &Vec<usize>, color: Option<&Color>) -> (r: String)
    requires
        picks@.len() == text@.len(),
        forall|j: int| 0 <= j < picks@.len() ==> picks@[j] < 26,
    ensures
        r@ == frame_start(opt_view(color)) + matrix_chars(text@, i as int, picks@),
{
    let syms = vec![
        '!', '@', '#', '$', '%', '^', '&', '*', '(', ')', '_', '+', '-', '=', '[', ']', '{', '}',
        '|', ';', ':', ',', '.', '<', '>', '?',
    ];
    assert(syms@ == symbols());
    let mut r = String::new();
    push_frame_start(&mut r, color);
    let ghost start = r@;
    let mut j: usize = 0;
    while j < text.len()
        invariant
            syms@ == symbols(),
            picks@.len() == text@.len(),
            forall|j: int| 0 <= j < picks@.len() ==> picks@[j] < 26,
            j <= text@.len(),
            r@ == start + matrix_chars(text@, i as int, picks@).take(j as int),
        decreases text.len() - j,
    {
        if j <= i {
            r.push(text[j]);
        } else {
            r.push(syms[picks[j]]);
        }
        j = j + 1;
        assert(r@ =~= start + matrix_chars(text@, i as int, picks@).take(j as int));
    }
    assert(matrix_chars(text@, i as int, picks@).take(j as int) =~= matrix_chars(text@, i as int, picks@));
    r
}

/// Frame `i` of the matrix effect on `text`, its hidden characters drawn at random.
pub fn matrix_frame(text: &str, i: usize, color: Option<&Color>) -> (r: String)
    ensures
        exists|picks: Seq<usize>|
            picks.len() == text@.len() && (forall|j: int| 0 <= j < picks.len() ==> picks[j] < 26)
                && r@ == frame_start(opt_view(color)) + #[trigger] matrix_chars(text@, i as int, picks),
{
    let t = chars_of(text);
    let mut picks: Vec<usize> = Vec::new();
    let mut j: usize = 0;
    while j < t.len()
        invariant
            j <= t@.len(),
            picks@.len() == j,
            forall|k: int| 0 <= k < picks@.len() ==> picks@[k] < 26,
        decreases t.len() - j,
    {
        picks.push(random_in(0, 26));
        j = j + 1;
    }
    matrix_line(&t, i, &picks, color)
}

/// The seven colors of the rainbow, red to violet.
pub open spec fn rainbow() -> Seq<(u8, u8, u8)> {
    seq![(255u8, 0u8, 0u8), (255, 127, 0), (255, 255, 0), (0, 255, 0), (0, 0, 255), (75, 0, 130), (143, 0, 255)]
}

/// The first `k` characters of `t` in rainbow rotation `i`: character `j` in rainbow
/// color `(i + j) mod 7`.
pub open spec fn rainbow_prefix(t: Seq<char>, i: int, k: int) -> Seq<char>
    decreases k,
{
    if k <= 0 {
        seq![]
    } else {
        rainbow_prefix(t, i, k - 1) + escape_of(rainbow()[(i + k - 1) % 7]) + seq![t[k - 1]]
    }
}

/// Rotation `i` of the rainbow effect on `text`.
pub fn rainbow_frame(text: &str, i: usize) -> (r: String)
    ensures
        r@ == seq!['\r'] + rainbow_prefix(text@, i as int, text@.len() as int) + reset_seq(),
{
    let colors = vec![
        Color::new(255, 0, 0),
        Color::new(255, 127, 0),
        Color::new(255, 255, 0),
        Color::new(0, 255, 0),
        Color::new(0, 0, 255),
        Color::new(75, 0, 130),
        Color::new(143, 0, 255),
    ];
    assert(colors@.map_values(|c: Color| c@) =~= rainbow());
    let t = chars_of(text);
    let mut r = String::new();
    r.push('\r');
    let ghost start = r@;
    let mut j: usize = 0;
    while j < t.len()
        invariant
            t@ == text@,
            colors@.len() == 7,
            colors@.map_values(|c: Color| c@) == rainbow(),
            j <= t@.len(),
            r@ == start + rainbow_prefix(text@, i as int, j as int),
        decreases t.len() - j,
    {
        let k = ((i as u128 + j as u128) % 7) as usize;
        assert(colors@[k as int]@ == rainbow()[k as int]);
        push_escape(&mut r, &colors[k]);
        r.push(t[j]);
        j = j + 1;
        assert(r@ =~= start + rainbow_prefix(text@, i as int, j as int));
    }
    push_reset(&mut r);
    assert(r@ =~= seq!['\r'] + rainbow_prefix(text@, i as int, text@.len() as int) + reset_seq());
    r
}

/// The spinner glyphs of a style: 1 Braille dots, 2 arrows, any other the line.
pub open spec fn spinner_glyphs(style: usize) -> Seq<char> {
    if style == 1 {
        seq!['⠋', '⠙', '⠹', '⠸', '⠼', '⠴', '⠦', '⠧']
    } else if style == 2 {
        seq!['←', '↖', '↑', '↗', '→', '↘', '↓', '↙']
    } else {
        seq!['|', '/', '-', '\\']
    }
}

/// Frame `i` of a spinner of `total` steps: the glyph `i` of its style, and `i/total`.
pub open spec fn spinner_of(i: nat, total: nat, c: (u8, u8, u8), style: usize) -> Seq<char> {
    let g = spinner_glyphs(style);
    seq!['\r'] + escape_of(c) + seq![g[(i % g.len()) as int], ' '] + dec(i) + seq!['/'] + dec(total)
}

/// Frame `i` of a spinner of `total` steps in `color` and `style`.
pub fn spinner_frame(i: usize, total: usize, color: &Color, style: usize) -> (r: String)
    ensures
        r@ == spinner_of(i as nat, total as nat, color@, style),
{
    let glyphs: Vec<char> = if style == 1 {
        vec!['⠋', '⠙', '⠹', '⠸', '⠼', '⠴', '⠦', '⠧']
    } else if style == 2 {
        vec!['←', '↖', '↑', '↗', '→', '↘', '↓', '↙']
    } else {
        vec!['|', '/', '-', '\\']
    };
    assert(glyphs@ == spinner_glyphs(style));
    let mut r = String::new();
    r.push('\r');
    push_escape(&mut r, color);
    r.push(glyphs[i % glyphs.len()]);
    r.push(' ');
    push_dec(&mut r, i as u64);
    r.push('/');
    push_dec(&mut r, total as u64);
    assert(r@ =~= spinner_of(i as nat, total as nat, color@, style));
    r
}

} // verus!
