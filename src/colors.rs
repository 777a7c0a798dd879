use vstd::prelude::*;
use crate::text::{dec, digit, push_dec};
use rand::Rng;

verus! {

/// An RGB color with one 8-bit channel per component.
#[derive(Clone, Copy, PartialEq, Eq, Structural, Debug)]
pub struct Color {
    r: u8,
    g: u8,
    b: u8,
}

impl View for Color {
    type V = (u8, u8, u8);

    closed spec fn view(&self) -> (u8, u8, u8) {
        (self.r, self.g, self.b)
    }
}

/// Red at full intensity.
pub fn red() -> (c: Color)
    ensures
        c@ == (255u8, 0u8, 0u8),
{
    Color { r: 255, g: 0, b: 0 }
}

/// Green at full intensity.
pub fn green() -> (c: Color)
    ensures
        c@ == (0u8, 255u8, 0u8),
{
    Color { r: 0, g: 255, b: 0 }
}

/// Blue at full intensity.
pub fn blue() -> (c: Color)
    ensures
        c@ == (0u8, 0u8, 255u8),
{
    Color { r: 0, g: 0, b: 255 }
}

/// Yellow at full intensity.
pub fn yellow() -> (c: Color)
    ensures
        c@ == (255u8, 255u8, 0u8),
{
    Color { r: 255, g: 255, b: 0 }
}

/// Magenta at full intensity.
pub fn magenta() -> (c: Color)
    ensures
        c@ == (255u8, 0u8, 255u8),
{
    Color { r: 255, g: 0, b: 255 }
}

/// Cyan at full intensity.
pub fn cyan() -> (c: Color)
    ensures
        c@ == (0u8, 255u8, 255u8),
{
    Color { r: 0, g: 255, b: 255 }
}

/// White at full intensity.
pub fn white() -> (c: Color)
    ensures
        c@ == (255u8, 255u8, 255u8),
{
    Color { r: 255, g: 255, b: 255 }
}

/// Black at full intensity.
pub fn black() -> (c: Color)
    ensures
        c@ == (0u8, 0u8, 0u8),
{
    Color { r: 0, g: 0, b: 0 }
}

/// Escape sequence that resets all text attributes.
pub const RESET: &'static str = "\x1B[0m";

/// The characters of the reset sequence.
pub open spec fn reset_seq() -> Seq<char> {
    seq!['\x1B', '[', '0', 'm']
}

/// The 24-bit foreground escape sequence `ESC[38;2;<r>;<g>;<b>m`.
pub open spec fn escape_of(c: (u8, u8, u8)) -> Seq<char> {
    escape_prefix() + dec(c.0 as nat) + seq![';'] + dec(c.1 as nat) + seq![';'] + dec(
        c.2 as nat,
    ) + seq!['m']
}

/// The index of a channel's band in the 6-level color cube.
pub open spec fn band(x: u8) -> int {
    (x as int) * 5 / 255
}

/// The index of the 256-color palette's cube entry nearest to `c`.
pub open spec fn cube_index(c: (u8, u8, u8)) -> int {
    16 + 36 * band(c.0) + 6 * band(c.1) + band(c.2)
}

/// A channel `i / n` of the way from `a` to `b`, rounded down; `a` when `n` is 0.
pub open spec fn lerp(a: u8, b: u8, i: int, n: int) -> int {
    if n == 0 {
        a as int
    } else {
        ((a as int) * (n - i) + (b as int) * i) / n
    }
}

/// Color `i` of a gradient of `steps` colors from `s` to `e`.
pub open spec fn fade_at(s: (u8, u8, u8), e: (u8, u8, u8), i: int, steps: int) -> (int, int, int) {
    let n = if steps > 1 { steps - 1 } else { 0 };
    (lerp(s.0, e.0, i, n), lerp(s.1, e.1, i, n), lerp(s.2, e.2, i, n))
}

/// The RGB color of hue `h` (degrees), saturation `s` and value `v` (both in percent),
/// each channel rounded down.
pub open spec fn hsv_rgb(h: int, s: int, v: int) -> (int, int, int) {
    let hh = h % 120;
    let d = if hh >= 60 { hh - 60 } else { 60 - hh };
    let full = v * 255 / 100;
    let low = v * (100 - s) * 255 / 10000;
    let mid = (v * s * (60 - d) + v * (100 - s) * 60) * 255 / 600000;
    let sector = h / 60;
    if sector == 0 {
        (full, mid, low)
    } else if sector == 1 {
        (mid, full, low)
    } else if sector == 2 {
        (low, full, mid)
    } else if sector == 3 {
        (low, mid, full)
    } else if sector == 4 {
        (mid, low, full)
    } else {
        (full, low, mid)
    }
}

/// Relies on `rand::thread_rng` and `Rng::gen_range`: a number in `lo..hi`
/// (`gen_range` panics on an empty range).
#[verifier::external_body]
pub(crate) fn random_in(lo: usize, hi: usize) -> (r: usize)
    requires
        lo < hi,
    ensures
        lo <= r < hi,
{
    rand::thread_rng().gen_range(lo..hi)
}

impl Color {
    /// Creates a color from its red, green and blue components.
    pub fn new(r: u8, g: u8, b: u8) -> (c: Self)
        ensures
            c@ == (r, g, b),
    {
        Color { r, g, b }
    }

    /// The red, green and blue components.
    pub fn rgb(&self) -> (t: (u8, u8, u8))
        ensures
            t == self@,
    {
        (self.r, self.g, self.b)
    }

    /// The index of the nearest entry of the 256-color palette's 6x6x6 cube.
    pub fn to_256_color(&self) -> (r: u8)
        ensures
            r == cube_index(self@),
            16 <= r <= 231,
    {
        let r = (self.r as u16 * 5 / 255) as u8;
        let g = (self.g as u16 * 5 / 255) as u8;
        let b = (self.b as u16 * 5 / 255) as u8;
        16 + 36 * r + 6 * g + b
    }

    /// The escape sequence that sets this color as the foreground.
    pub fn escape(&self) -> (s: String)
        ensures
            s@ == escape_of(self@),
    {
        let mut s = String::new();
        push_escape(&mut s, self);
        s
    }
}

/// Appends the foreground escape sequence of `c` to `s`.
pub fn push_escape(s: &mut String, c: &Color)
    ensures
        final(s)@ == old(s)@ + escape_of(c@),
{
    s.push('\x1B');
    s.push('[');
    s.push('3');
    s.push('8');
    s.push(';');
    s.push('2');
    s.push(';');
    push_dec(s, c.r as u64);
    s.push(';');
    push_dec(s, c.g as u64);
    s.push(';');
    push_dec(s, c.b as u64);
    s.push('m');
    assert(s@ =~= old(s)@ + escape_of(c@));
}

/// Appends the reset sequence to `s`.
pub fn push_reset(s: &mut String)
    ensures
        final(s)@ == old(s)@ + reset_seq(),
{
    s.push('\x1B');
    s.push('[');
    s.push('0');
    s.push('m');
    assert(s@ =~= old(s)@ + reset_seq());
}

fn lerp_channel(a: u8, b: u8, i: usize, n: usize) -> (r: u8)
    requires
        i <= n,
    ensures
        r == lerp(a, b, i as int, n as int),
{
    if n == 0 {
        a
    } else {
        proof {
            assert((a as int) * (n - i) <= 255 * 0x1_0000_0000_0000_0000) by (nonlinear_arith)
                requires a <= 255, n - i <= 0x1_0000_0000_0000_0000;
            assert((b as int) * i <= 255 * 0x1_0000_0000_0000_0000) by (nonlinear_arith)
                requires b <= 255, i <= 0x1_0000_0000_0000_0000;
        }
        let num = (a as u128) * ((n - i) as u128) + (b as u128) * (i as u128);
        proof {
            let hi = if a <= b { b as int } else { a as int };
            assert((a as int) * (n - i) + (b as int) * i <= hi * n) by (nonlinear_arith)
                requires a as int <= hi, b as int <= hi, i <= n;
            assert(hi * n <= 255 * n) by (nonlinear_arith) requires hi <= 255;
            assert(((a as int) * (n - i) + (b as int) * i) / (n as int) <= hi) by (nonlinear_arith)
                requires (a as int) * (n - i) + (b as int) * i <= hi * n, n > 0;
        }
        (num / (n as u128)) as u8
    }
}

/// A gradient of `steps` colors from `start` to `end`, each channel interpolated
/// linearly and rounded down; a single step gives `start`.
pub fn fade_color(start: &Color, end: &Color, steps: usize) -> (r: Vec<Color>)
    ensures
        r@.len() == steps,
        forall|i: int|
            0 <= i < steps ==> {
                let t = #[trigger] fade_at(start@, end@, i, steps as int);
                r@[i]@.0 == t.0 && r@[i]@.1 == t.1 && r@[i]@.2 == t.2
            },
{
    let n: usize = if steps > 1 { steps - 1 } else { 0 };
    let mut r: Vec<Color> = Vec::new();
    let mut i: usize = 0;
    while i < steps
        invariant
            i <= steps,
            n == if steps > 1 { steps - 1 } else { 0 },
            r@.len() == i,
            forall|j: int|
                0 <= j < i ==> {
                    let t = #[trigger] fade_at(start@, end@, j, steps as int);
                    r@[j]@.0 == t.0 && r@[j]@.1 == t.1 && r@[j]@.2 == t.2
                },
        decreases steps - i,
    {
        let k: usize = if n == 0 { 0 } else { i };
        let c = Color::new(
            lerp_channel(start.r, end.r, k, n),
            lerp_channel(start.g, end.g, k, n),
            lerp_channel(start.b, end.b, k, n),
        );
        r.push(c);
        assert(fade_at(start@, end@, i as int, steps as int).0 == c@.0);
        i = i + 1;
    }
    r
}

/// The color of hue `h` (degrees), saturation `s` and value `v` (in percent), each
/// channel rounded down.
pub fn hsv_to_color(h: u16, s: u8, v: u8) -> (c: Color)
    requires
        h < 360,
        s <= 100,
        v <= 100,
    ensures
        ({
            let t = hsv_rgb(h as int, s as int, v as int);
            c@.0 == t.0 && c@.1 == t.1 && c@.2 == t.2
        }),
{
    let h = h as u64;
    let s = s as u64;
    let v = v as u64;
    let hh = h % 120;
    let d = if hh >= 60 { hh - 60 } else { 60 - hh };
    proof {
        assert(v * s <= 10000) by (nonlinear_arith) requires v <= 100, s <= 100;
        assert(v * s * (60 - d) <= 600000) by (nonlinear_arith)
            requires v * s <= 10000, d <= 60;
        assert(v * (100 - s) <= 10000) by (nonlinear_arith) requires v <= 100, s <= 100;
        assert(v * (100 - s) * 60 <= v * (100 - s) * 60 + v * s * (60 - d));
        assert(v * (100 - s) * 60 + v * s * (60 - d) <= 6000 * v) by (nonlinear_arith)
            requires d <= 60, s <= 100;
        assert((v * s * (60 - d) + v * (100 - s) * 60) * 255 / 600000 <= v * 255 / 100)
            by (nonlinear_arith)
            requires v * (100 - s) * 60 + v * s * (60 - d) <= 6000 * v;
        assert(v * (100 - s) * 255 / 10000 <= v * 255 / 100) by (nonlinear_arith)
            requires v * (100 - s) <= 100 * v;
        assert(v * 255 / 100 <= 255) by (nonlinear_arith) requires v <= 100;
    }
    let full = (v * 255 / 100) as u8;
    let low = (v * (100 - s) * 255 / 10000) as u8;
    let mid = ((v * s * (60 - d) + v * (100 - s) * 60) * 255 / 600000) as u8;
    let sector = h / 60;
    if sector == 0 {
        Color::new(full, mid, low)
    } else if sector == 1 {
        Color::new(mid, full, low)
    } else if sector == 2 {
        Color::new(low, full, mid)
    } else if sector == 3 {
        Color::new(low, mid, full)
    } else if sector == 4 {
        Color::new(mid, low, full)
    } else {
        Color::new(full, low, mid)
    }
}

/// A random bright, saturated color: hue in [0, 360), saturation and value in
/// [70, 100) percent.
pub fn random_pleasing_color() -> (c: Color)
    ensures
        exists|h: int, s: int, v: int|
            0 <= h < 360 && 70 <= s < 100 && 70 <= v < 100 && {
                let t = #[trigger] hsv_rgb(h, s, v);
                c@.0 == t.0 && c@.1 == t.1 && c@.2 == t.2
            },
{
    let h = random_in(0, 360);
    let s = random_in(70, 100);
    let v = random_in(70, 100);
    let c = hsv_to_color(h as u16, s as u8, v as u8);
    assert(hsv_rgb(h as int, s as int, v as int) == hsv_rgb((h as u16) as int, (s as u8) as int, (v as u8) as int));
    c
}

} // verus!

verus! {

/// A channel interpolated between `a` and `b` lies between them.
proof fn lemma_lerp_between(a: u8, b: u8, i: int, n: int)
    requires
        0 <= i <= n,
    ensures
        a <= b ==> a as int <= lerp(a, b, i, n) <= b as int,
        b <= a ==> b as int <= lerp(a, b, i, n) <= a as int,
{
    if n > 0 {
        let x = (a as int) * (n - i) + (b as int) * i;
        if a <= b {
            assert((a as int) * n <= x <= (b as int) * n) by (nonlinear_arith)
                requires x == (a as int) * (n - i) + (b as int) * i, a <= b, 0 <= i <= n;
            assert((a as int) * n / n == a as int) by (nonlinear_arith) requires n > 0;
            assert((b as int) * n / n == b as int) by (nonlinear_arith) requires n > 0;
            assert((a as int) * n / n <= x / n <= (b as int) * n / n) by (nonlinear_arith)
                requires (a as int) * n <= x <= (b as int) * n, n > 0;
        } else {
            assert((b as int) * n <= x <= (a as int) * n) by (nonlinear_arith)
                requires x == (a as int) * (n - i) + (b as int) * i, b <= a, 0 <= i <= n;
            assert((a as int) * n / n == a as int) by (nonlinear_arith) requires n > 0;
            assert((b as int) * n / n == b as int) by (nonlinear_arith) requires n > 0;
            assert((b as int) * n / n <= x / n <= (a as int) * n / n) by (nonlinear_arith)
                requires (b as int) * n <= x <= (a as int) * n, n > 0;
        }
    }
}

proof fn lemma_lerp_ends(a: u8, b: u8, n: int)
    requires
        n > 0,
    ensures
        lerp(a, b, 0, n) == a as int,
        lerp(a, b, n, n) == b as int,
{
    assert((a as int) * (n - 0) + (b as int) * 0 == (a as int) * n) by (nonlinear_arith);
    assert((a as int) * (n - n) + (b as int) * n == (b as int) * n) by (nonlinear_arith);
    assert((a as int) * n / n == a as int) by (nonlinear_arith) requires n > 0;
    assert((b as int) * n / n == b as int) by (nonlinear_arith) requires n > 0;
}

/// A gradient starts at its first color and, with two steps or more, ends at its last.
pub proof fn lemma_fade_endpoints(s: (u8, u8, u8), e: (u8, u8, u8), steps: int)
    requires
        steps >= 1,
    ensures
        fade_at(s, e, 0, steps) == (s.0 as int, s.1 as int, s.2 as int),
        steps >= 2 ==> fade_at(s, e, steps - 1, steps) == (e.0 as int, e.1 as int, e.2 as int),
{
    if steps >= 2 {
        lemma_lerp_ends(s.0, e.0, steps - 1);
        lemma_lerp_ends(s.1, e.1, steps - 1);
        lemma_lerp_ends(s.2, e.2, steps - 1);
    }
}

/// Every channel of every gradient color lies between the channel's values at the two
/// ends.
pub proof fn lemma_fade_between(s: (u8, u8, u8), e: (u8, u8, u8), i: int, steps: int)
    requires
        0 <= i < steps,
    ensures
        ({
            let t = fade_at(s, e, i, steps);
            &&& s.0 <= e.0 ==> s.0 as int <= t.0 <= e.0 as int
            &&& e.0 <= s.0 ==> e.0 as int <= t.0 <= s.0 as int
            &&& s.1 <= e.1 ==> s.1 as int <= t.1 <= e.1 as int
            &&& e.1 <= s.1 ==> e.1 as int <= t.1 <= s.1 as int
            &&& s.2 <= e.2 ==> s.2 as int <= t.2 <= e.2 as int
            &&& e.2 <= s.2 ==> e.2 as int <= t.2 <= s.2 as int
        }),
{
    let n = if steps > 1 { steps - 1 } else { 0 };
    lemma_lerp_between(s.0, e.0, i, n);
    lemma_lerp_between(s.1, e.1, i, n);
    lemma_lerp_between(s.2, e.2, i, n);
}

/// Whether `c` is a decimal digit.
pub open spec fn is_digit(c: char) -> bool {
    '0' <= c && c <= '9'
}

/// The value of the decimal digit `c`.
pub open spec fn digit_value(c: char) -> nat {
    if c == '0' { 0 }
    else if c == '1' { 1 }
    else if c == '2' { 2 }
    else if c == '3' { 3 }
    else if c == '4' { 4 }
    else if c == '5' { 5 }
    else if c == '6' { 6 }
    else if c == '7' { 7 }
    else if c == '8' { 8 }
    else { 9 }
}

/// The number that the digits `s` write in decimal.
pub open spec fn dec_value(s: Seq<char>) -> nat
    decreases s.len(),
{
    if s.len() == 0 {
        0
    } else {
        dec_value(s.drop_last()) * 10 + digit_value(s.last())
    }
}

/// How many decimal digits `s` starts with.
pub open spec fn digit_run(s: Seq<char>) -> nat
    decreases s.len(),
{
    if s.len() > 0 && is_digit(s[0]) {
        1 + digit_run(s.drop_first())
    } else {
        0
    }
}

/// A number at the start of `s` ended by `sep`: its value and what follows `sep`.
pub open spec fn number_field(s: Seq<char>, sep: char) -> Option<(nat, Seq<char>)> {
    let k = digit_run(s);
    if k > 0 && k < s.len() && s[k as int] == sep {
        Some((dec_value(s.take(k as int)), s.skip(k as int + 1)))
    } else {
        None
    }
}

/// The start of every foreground escape sequence.
pub open spec fn escape_prefix() -> Seq<char> {
    seq!['\x1B', '[', '3', '8', ';', '2', ';']
}

/// The three channels written in a foreground escape sequence, if `s` is one.
pub open spec fn parse_escape(s: Seq<char>) -> Option<(u8, u8, u8)> {
    if s.len() >= 7 && s.take(7) == escape_prefix() {
        match number_field(s.skip(7), ';') {
            Some((r, s1)) => match number_field(s1, ';') {
                Some((g, s2)) => match number_field(s2, 'm') {
                    Some((b, s3)) => if s3.len() == 0 && r <= 255 && g <= 255 && b <= 255 {
                        Some((r as u8, g as u8, b as u8))
                    } else {
                        None
                    },
                    None => None,
                },
                None => None,
            },
            None => None,
        }
    } else {
        None
    }
}

proof fn lemma_dec_digits(n: nat)
    ensures
        dec(n).len() > 0,
        forall|i: int| 0 <= i < dec(n).len() ==> is_digit(#[trigger] dec(n)[i]),
        dec_value(dec(n)) == n,
    decreases n,
{
    if n >= 10 {
        lemma_dec_digits(n / 10);
        let d = dec(n);
        assert(d.drop_last() =~= dec(n / 10));
        assert(d.last() == digit(n % 10));
        assert(digit_value(digit(n % 10)) == n % 10);
        assert(dec_value(d) == dec_value(d.drop_last()) * 10 + digit_value(d.last()));
        assert((n / 10) * 10 + n % 10 == n);
    } else {
        let d = dec(n);
        assert(d == seq![digit(n)]);
        assert(d.drop_last() =~= Seq::<char>::empty());
        assert(dec_value(Seq::<char>::empty()) == 0);
        assert(d.last() == digit(n));
        assert(digit_value(digit(n)) == n);
        assert(dec_value(d) == dec_value(d.drop_last()) * 10 + digit_value(d.last()));
    }
}

proof fn lemma_digit_run(d: Seq<char>, t: Seq<char>)
    requires
        forall|i: int| 0 <= i < d.len() ==> is_digit(#[trigger] d[i]),
        t.len() == 0 || !is_digit(t[0]),
    ensures
        digit_run(d + t) == d.len(),
    decreases d.len(),
{
    if d.len() > 0 {
        assert((d + t).drop_first() =~= d.drop_first() + t);
        lemma_digit_run(d.drop_first(), t);
    } else {
        assert(d + t =~= t);
    }
}

proof fn lemma_number_field(n: nat, sep: char, rest: Seq<char>)
    requires
        !is_digit(sep),
    ensures
        number_field(dec(n) + seq![sep] + rest, sep) == Some((n, rest)),
{
    lemma_dec_digits(n);
    let d = dec(n);
    let s = d + seq![sep] + rest;
    assert(s =~= d + (seq![sep] + rest));
    lemma_digit_run(d, seq![sep] + rest);
    assert(s.take(d.len() as int) =~= d);
    assert(s.skip(d.len() as int + 1) =~= rest);
}

/// Parsing the three numbers out of a color's escape sequence gives back its channels.
pub proof fn lemma_escape_round_trip(c: (u8, u8, u8))
    ensures
        parse_escape(escape_of(c)) == Some(c),
{
    let tail_b = dec(c.2 as nat) + seq!['m'];
    let tail_g = dec(c.1 as nat) + seq![';'] + tail_b;
    let tail_r = dec(c.0 as nat) + seq![';'] + tail_g;
    let s = escape_of(c);
    assert(s =~= escape_prefix() + tail_r);
    assert(s.take(7) =~= escape_prefix());
    assert(s.skip(7) =~= tail_r);
    lemma_number_field(c.0 as nat, ';', tail_g);
    lemma_number_field(c.1 as nat, ';', tail_b);
    assert(tail_b =~= dec(c.2 as nat) + seq!['m'] + Seq::<char>::empty());
    lemma_number_field(c.2 as nat, 'm', Seq::<char>::empty());
}

fn digit_of(c: char) -> (d: u8)
    ensures
        d == digit_value(c),
{
    if c == '0' { 0 }
    else if c == '1' { 1 }
    else if c == '2' { 2 }
    else if c == '3' { 3 }
    else if c == '4' { 4 }
    else if c == '5' { 5 }
    else if c == '6' { 6 }
    else if c == '7' { 7 }
    else if c == '8' { 8 }
    else { 9 }
}

/// Reads a number of at most 255 from position `start` of `s`, ended by `sep`: its value
/// and the position after `sep`. `None` where there is no such field or its number is
/// larger.
fn read_field(s: &Vec<char>, start: usize, sep: char) -> (r: Option<(u8, usize)>)
    requires
        start <= s@.len(),
        !is_digit(sep),
    ensures
        match r {
            Some((v, next)) => next <= s@.len() && number_field(s@.skip(start as int), sep) == Some(
                (v as nat, s@.skip(next as int)),
            ),
            None => match number_field(s@.skip(start as int), sep) {
                Some((n, _)) => n > 255,
                None => true,
            },
        },
{
    let ghost t = s@.skip(start as int);
    let mut k: usize = start;
    let mut v: u64 = 0;
    let mut big = false;
    while k < s.len() && '0' <= s[k] && s[k] <= '9'
        invariant
            start <= k <= s@.len(),
            t == s@.skip(start as int),
            forall|i: int| start <= i < k ==> is_digit(#[trigger] s@[i]),
            !big ==> v == dec_value(s@.subrange(start as int, k as int)) && v <= 255,
            big ==> dec_value(s@.subrange(start as int, k as int)) > 255,
        decreases s.len() - k,
    {
        let ghost before = s@.subrange(start as int, k as int);
        let d = digit_of(s[k]);
        assert(s@.subrange(start as int, k as int + 1).drop_last() =~= before);
        if !big {
            v = v * 10 + d as u64;
            if v > 255 {
                big = true;
            }
        }
        k = k + 1;
    }
    let ghost d = s@.subrange(start as int, k as int);
    proof {
        assert(t =~= d + s@.skip(k as int));
        lemma_digit_run(d, s@.skip(k as int));
        assert(t.take(d.len() as int) =~= d);
    }
    if k == start || k >= s.len() || s[k] != sep {
        return None;
    }
    proof {
        assert(t.skip(d.len() as int + 1) =~= s@.skip(k as int + 1));
    }
    if big {
        None
    } else {
        Some((v as u8, k + 1))
    }
}

impl Color {
    /// The color whose foreground escape sequence `s` is, if it is one.
    pub fn from_escape(s: &str) -> (r: Option<Color>)
        ensures
            match r {
                Some(c) => parse_escape(s@) == Some(c@),
                None => parse_escape(s@) is None,
            },
    {
        let t = crate::text::chars_of(s);
        let prefix = vec!['\x1B', '[', '3', '8', ';', '2', ';'];
        assert(prefix@ == escape_prefix());
        if t.len() < 7 {
            return None;
        }
        let mut i: usize = 0;
        while i < 7
            invariant
                t@ == s@,
                t@.len() >= 7,
                prefix@ == escape_prefix(),
                i <= 7,
                forall|j: int| 0 <= j < i ==> t@[j] == prefix@[j],
            decreases 7 - i,
        {
            if t[i] != prefix[i] {
                assert(t@.take(7)[i as int] != escape_prefix()[i as int]);
                return None;
            }
            i = i + 1;
        }
        assert(t@.take(7) =~= escape_prefix());
        let (r, at_g) = match read_field(&t, 7, ';') {
            Some(f) => f,
            None => return None,
        };
        let (g, at_b) = match read_field(&t, at_g, ';') {
            Some(f) => f,
            None => return None,
        };
        let (b, end) = match read_field(&t, at_b, 'm') {
            Some(f) => f,
            None => return None,
        };
        if end != t.len() {
            return None;
        }
        Some(Color::new(r, g, b))
    }
}

} // verus!
