use vstd::prelude::*;
use crate::colors::{escape_of, push_escape, push_reset, reset_seq, Color};
use crate::text::{
    chars_of, lines_of, longest, max_len, pad_right, push_chars, push_padded, push_repeat, rep,
    spaces, split_lines,
};
use terminal_size::Width;

verus! {

/// Width assumed when the terminal's cannot be had.
pub const DEFAULT_WIDTH: usize = 80;

/// `t` preceded by the spaces that center it in `w` columns (none when it does not fit).
pub open spec fn center(t: Seq<char>, w: nat) -> Seq<char> {
    let pad: nat = if w >= t.len() { ((w - t.len()) / 2) as nat } else { 0 };
    spaces(pad) + t
}

/// The escape sequence of an optional color, empty without one.
pub open spec fn color_on(c: Option<(u8, u8, u8)>) -> Seq<char> {
    match c {
        Some(c) => escape_of(c),
        None => seq![],
    }
}

/// The reset sequence when a color was set, empty otherwise.
pub open spec fn color_off(c: Option<(u8, u8, u8)>) -> Seq<char> {
    match c {
        Some(_) => reset_seq(),
        None => seq![],
    }
}

/// The view of an optional color.
pub open spec fn opt_view(c: Option<&Color>) -> Option<(u8, u8, u8)> {
    match c {
        Some(c) => Some(c@),
        None => None,
    }
}

/// `t` in color `c`, followed by the reset sequence.
pub open spec fn colored_of(t: Seq<char>, c: (u8, u8, u8)) -> Seq<char> {
    escape_of(c) + t + reset_seq()
}

/// Index of the color of character `i` when `n` characters share `k` colors in order.
pub open spec fn fade_index(i: int, k: int, n: int) -> int {
    i * k / n
}

/// The first `j` characters of `t`, each preceded by its color among `cs`.
pub open spec fn fade_prefix(t: Seq<char>, cs: Seq<(u8, u8, u8)>, j: int) -> Seq<char>
    decreases j,
{
    if j <= 0 {
        seq![]
    } else {
        fade_prefix(t, cs, j - 1) + escape_of(cs[fade_index(j - 1, cs.len() as int, t.len() as int)])
            + seq![t[j - 1]]
    }
}

/// `t` spread over the colors `cs`, followed by the reset sequence; empty when `t` or
/// `cs` is.
pub open spec fn fade_of(t: Seq<char>, cs: Seq<(u8, u8, u8)>) -> Seq<char> {
    if t.len() == 0 || cs.len() == 0 {
        seq![]
    } else {
        fade_prefix(t, cs, t.len() as int) + reset_seq()
    }
}

/// The horizontal rule of a box `w` wide inside, between corners `l` and `r`.
pub open spec fn rule(l: char, w: nat, r: char) -> Seq<char> {
    seq![l] + rep('═', w + 2) + seq![r]
}

/// The first `k` content lines of a box whose lines are `w` wide.
pub open spec fn box_rows(ls: Seq<Seq<char>>, w: nat, k: int) -> Seq<char>
    decreases k,
{
    if k <= 0 {
        seq![]
    } else {
        box_rows(ls, w, k - 1) + seq!['║', ' '] + pad_right(ls[k - 1], w) + seq![' ', '║', '\n']
    }
}

/// The lines `ls` in a double-line box, with one space of margin on each side.
pub open spec fn box_of(ls: Seq<Seq<char>>) -> Seq<char> {
    let w = max_len(ls);
    rule('╔', w, '╗') + seq!['\n'] + box_rows(ls, w, ls.len() as int) + rule('╚', w, '╝')
}

/// Cell `i` of a row, empty when the row has no such cell.
pub open spec fn cell(row: Seq<Seq<char>>, i: int) -> Seq<char> {
    if 0 <= i < row.len() {
        row[i]
    } else {
        seq![]
    }
}

/// The longest cell `i` among the first `k` rows.
pub open spec fn max_cell(rows: Seq<Seq<Seq<char>>>, i: int, k: int) -> nat
    decreases k,
{
    if k <= 0 {
        0
    } else {
        let m = max_cell(rows, i, k - 1);
        let l = cell(rows[k - 1], i).len();
        if l > m { l } else { m }
    }
}

/// The width of column `i`: its longest header or cell.
pub open spec fn col_width(hs: Seq<Seq<char>>, rows: Seq<Seq<Seq<char>>>, i: int) -> nat {
    let m = max_cell(rows, i, rows.len() as int);
    if hs[i].len() > m { hs[i].len() } else { m }
}

/// The widths of all columns.
pub open spec fn col_widths(hs: Seq<Seq<char>>, rows: Seq<Seq<Seq<char>>>) -> Seq<nat> {
    Seq::new(hs.len(), |i: int| col_width(hs, rows, i))
}

/// The first `k` segments of a table border, joined by `mid`.
pub open spec fn border_segs(ws: Seq<nat>, mid: char, k: int) -> Seq<char>
    decreases k,
{
    if k <= 0 {
        seq![]
    } else {
        let sep = if k > 1 { seq![mid] } else { seq![] };
        border_segs(ws, mid, k - 1) + sep + rep('═', ws[k - 1] + 2)
    }
}

/// A table border between `l` and `r`, with `mid` where columns meet.
pub open spec fn border(ws: Seq<nat>, l: char, mid: char, r: char) -> Seq<char> {
    seq![l] + border_segs(ws, mid, ws.len() as int) + seq![r]
}

/// The first `k` cells of a table row, each padded to its column's width.
pub open spec fn row_cells(cells: Seq<Seq<char>>, ws: Seq<nat>, k: int) -> Seq<char>
    decreases k,
{
    if k <= 0 {
        seq![]
    } else {
        let sep = if k < ws.len() { seq!['│', ' '] } else { seq![] };
        row_cells(cells, ws, k - 1) + pad_right(cell(cells, k - 1), ws[k - 1]) + seq![' '] + sep
    }
}

/// A table row: one cell per column.
pub open spec fn row_line(cells: Seq<Seq<char>>, ws: Seq<nat>) -> Seq<char> {
    seq!['║', ' '] + row_cells(cells, ws, ws.len() as int) + seq!['║']
}

/// One line of a table, in the optional color, ended by a newline.
pub open spec fn framed(line: Seq<char>, c: Option<(u8, u8, u8)>) -> Seq<char> {
    color_on(c) + line + color_off(c) + seq!['\n']
}

/// The first `k` data rows of a table.
pub open spec fn table_rows(
    rows: Seq<Seq<Seq<char>>>,
    ws: Seq<nat>,
    c: Option<(u8, u8, u8)>,
    k: int,
) -> Seq<char>
    decreases k,
{
    if k <= 0 {
        seq![]
    } else {
        table_rows(rows, ws, c, k - 1) + framed(row_line(rows[k - 1], ws), c)
    }
}

/// A table of the headers `hs` and rows `rows`, its lines in the optional color `c`.
pub open spec fn table_of(hs: Seq<Seq<char>>, rows: Seq<Seq<Seq<char>>>, c: Option<(u8, u8, u8)>) -> Seq<char> {
    let ws = col_widths(hs, rows);
    framed(border(ws, '╔', '╦', '╗'), c) + framed(row_line(hs, ws), c) + framed(
        border(ws, '╠', '╬', '╣'),
        c,
    ) + table_rows(rows, ws, c, rows.len() as int) + framed(border(ws, '╚', '╩', '╝'), c)
}

/// The cells of the rows, each as its characters.
pub open spec fn rows_view(rows: Seq<Vec<String>>) -> Seq<Seq<Seq<char>>> {
    rows.map_values(|r: Vec<String>| r@.map_values(|s: String| s@))
}

/// The headers, each as its characters.
pub open spec fn strs_view(hs: Seq<&str>) -> Seq<Seq<char>> {
    hs.map_values(|h: &str| h@)
}

/// Relies on `terminal_size::terminal_size`: the terminal's column count, if it has one.
#[verifier::external_body]
fn terminal_columns() -> (r: Option<u16>) {
    terminal_size::terminal_size().map(|(Width(w), _)| w)
}

/// The width of the terminal, or `DEFAULT_WIDTH` when it cannot be had.
pub fn terminal_width() -> (w: usize) {
    match terminal_columns() {
        Some(w) => w as usize,
        None => DEFAULT_WIDTH,
    }
}

/// `text` preceded by the spaces that center it in `width` columns.
pub fn center_text_in(text: &str, width: usize) -> (r: String)
    ensures
        r@ == center(text@, width as nat),
{
    let t = chars_of(text);
    let pad: usize = if width >= t.len() { (width - t.len()) / 2 } else { 0 };
    let mut r = String::new();
    push_repeat(&mut r, ' ', pad);
    push_chars(&mut r, &t);
    r
}

/// `text` centered in the terminal's width.
pub fn center_text(text: &str) -> (r: String)
    ensures
        exists|w: nat| r@ == #[trigger] center(text@, w),
{
    let w = terminal_width();
    center_text_in(text, w)
}

/// `text` in `color`, followed by the reset sequence.
pub fn colored(text: &str, color: &Color) -> (r: String)
    ensures
        r@ == colored_of(text@, color@),
{
    let mut r = String::new();
    push_escape(&mut r, color);
    let t = chars_of(text);
    push_chars(&mut r, &t);
    push_reset(&mut r);
    r
}

/// `text` spread over `colors` in order, each character preceded by its color, followed by
/// the reset sequence; empty when `text` or `colors` is.
pub fn fade_text(text: &str, colors: &[Color]) -> (r: String)
    ensures
        r@ == fade_of(text@, colors@.map_values(|c: Color| c@)),
{
    let ghost cs = colors@.map_values(|c: Color| c@);
    let t = chars_of(text);
    let n = t.len();
    let k = colors.len();
    let mut r = String::new();
    if n == 0 || k == 0 {
        return r;
    }
    let mut j: usize = 0;
    while j < n
        invariant
            n == t@.len() == text@.len(),
            k == colors@.len() == cs.len(),
            t@ == text@,
            cs == colors@.map_values(|c: Color| c@),
            n > 0,
            k > 0,
            j <= n,
            r@ == fade_prefix(text@, cs, j as int),
        decreases n - j,
    {
        proof {
            assert((j as int) * (k as int) < (n as int) * (k as int)) by (nonlinear_arith)
                requires j < n, k > 0;
            assert((j as int) * (k as int) / (n as int) < k) by (nonlinear_arith)
                requires (j as int) * (k as int) < (n as int) * (k as int), n > 0;
            assert((j as int) * (k as int) <= 0xffff_ffff_ffff_ffff * 0xffff_ffff_ffff_ffff)
                by (nonlinear_arith) requires j <= 0xffff_ffff_ffff_ffff, k <= 0xffff_ffff_ffff_ffff;
        }
        let idx = ((j as u128) * (k as u128) / (n as u128)) as usize;
        push_escape(&mut r, &colors[idx]);
        r.push(t[j]);
        j = j + 1;
    }
    push_reset(&mut r);
    r
}

/// Appends `w + 2` double horizontal lines to `s`.
fn push_rule(s: &mut String, w: usize)
    ensures
        final(s)@ == old(s)@ + rep('═', w as nat + 2),
{
    push_repeat(s, '═', w);
    s.push('═');
    s.push('═');
    assert(s@ =~= old(s)@ + rep('═', w as nat + 2));
}

/// The lines of `text` in a double-line box, each padded to the longest with one space
/// of margin on each side.
pub fn box_text(text: &str) -> (r: String)
    ensures
        r@ == box_of(lines_of(text@)),
{
    let t = chars_of(text);
    let lines = split_lines(&t);
    let ghost ls = lines@.map_values(|l: Vec<char>| l@);
    let w = longest(&lines);
    let mut r = String::new();
    r.push('╔');
    push_rule(&mut r, w);
    r.push('╗');
    r.push('\n');
    let ghost top = r@;
    assert(top =~= rule('╔', w as nat, '╗') + seq!['\n']);
    let mut i: usize = 0;
    while i < lines.len()
        invariant
            ls == lines@.map_values(|l: Vec<char>| l@),
            w == max_len(ls),
            i <= lines@.len(),
            r@ == top + box_rows(ls, w as nat, i as int),
        decreases lines.len() - i,
    {
        r.push('║');
        r.push(' ');
        push_padded(&mut r, &lines[i], w);
        r.push(' ');
        r.push('║');
        r.push('\n');
        i = i + 1;
        assert(r@ =~= top + box_rows(ls, w as nat, i as int));
    }
    r.push('╚');
    push_rule(&mut r, w);
    r.push('╝');
    assert(r@ =~= box_of(ls));
    r
}

} // verus!

verus! {

/// The views of a sequence of character vectors.
pub open spec fn vecs_view(ls: Seq<Vec<char>>) -> Seq<Seq<char>> {
    ls.map_values(|l: Vec<char>| l@)
}

/// The widths as natural numbers.
pub open spec fn widths_view(ws: Seq<usize>) -> Seq<nat> {
    ws.map_values(|w: usize| w as nat)
}

fn push_color_on(s: &mut String, c: Option<&Color>)
    ensures
        final(s)@ == old(s)@ + color_on(opt_view(c)),
{
    match c {
        Some(c) => push_escape(s, c),
        None => {
            assert(s@ =~= old(s)@ + color_on(opt_view(c)));
        },
    }
}

fn push_color_off(s: &mut String, c: Option<&Color>)
    ensures
        final(s)@ == old(s)@ + color_off(opt_view(c)),
{
    match c {
        Some(_) => push_reset(s),
        None => {
            assert(s@ =~= old(s)@ + color_off(opt_view(c)));
        },
    }
}

fn push_border(s: &mut String, ws: &Vec<usize>, l: char, mid: char, r: char)
    ensures
        final(s)@ == old(s)@ + border(widths_view(ws@), l, mid, r),
{
    let ghost wv = widths_view(ws@);
    s.push(l);
    let ghost start = s@;
    let mut j: usize = 0;
    while j < ws.len()
        invariant
            wv == widths_view(ws@),
            j <= ws@.len(),
            s@ == start + border_segs(wv, mid, j as int),
        decreases ws.len() - j,
    {
        if j > 0 {
            s.push(mid);
        }
        push_rule(s, ws[j]);
        j = j + 1;
        assert(s@ =~= start + border_segs(wv, mid, j as int));
    }
    s.push(r);
    assert(s@ =~= old(s)@ + border(wv, l, mid, r));
}

fn push_row(s: &mut String, cells: &Vec<Vec<char>>, ws: &Vec<usize>)
    ensures
        final(s)@ == old(s)@ + row_line(vecs_view(cells@), widths_view(ws@)),
{
    let ghost wv = widths_view(ws@);
    let ghost cv = vecs_view(cells@);
    s.push('║');
    s.push(' ');
    let ghost start = s@;
    let empty: Vec<char> = Vec::new();
    let mut j: usize = 0;
    while j < ws.len()
        invariant
            wv == widths_view(ws@),
            cv == vecs_view(cells@),
            empty@.len() == 0,
            j <= ws@.len(),
            s@ == start + row_cells(cv, wv, j as int),
        decreases ws.len() - j,
    {
        if j < cells.len() {
            push_padded(s, &cells[j], ws[j]);
        } else {
            assert(empty@ =~= cell(cv, j as int));
            push_padded(s, &empty, ws[j]);
        }
        s.push(' ');
        if j + 1 < ws.len() {
            s.push('│');
            s.push(' ');
        }
        j = j + 1;
        assert(s@ =~= start + row_cells(cv, wv, j as int));
    }
    s.push('║');
    assert(s@ =~= old(s)@ + row_line(cv, wv));
}

fn column_width(h: &Vec<char>, rows: &Vec<Vec<Vec<char>>>, i: usize) -> (w: usize)
    ensures
        w == ({
            let m = max_cell(rows@.map_values(|r: Vec<Vec<char>>| vecs_view(r@)), i as int, rows@.len() as int);
            if h@.len() > m { h@.len() } else { m }
        }),
{
    let ghost rv = rows@.map_values(|r: Vec<Vec<char>>| vecs_view(r@));
    let mut m: usize = 0;
    let mut k: usize = 0;
    while k < rows.len()
        invariant
            rv == rows@.map_values(|r: Vec<Vec<char>>| vecs_view(r@)),
            k <= rows@.len(),
            m == max_cell(rv, i as int, k as int),
        decreases rows.len() - k,
    {
        if i < rows[k].len() {
            let l = rows[k][i].len();
            if l > m {
                m = l;
            }
        }
        k = k + 1;
    }
    if h.len() > m { h.len() } else { m }
}

fn header_chars(headers: &[&str]) -> (hs: Vec<Vec<char>>)
    ensures
        vecs_view(hs@) == strs_view(headers@),
{
    let ghost hv = strs_view(headers@);
    let mut hs: Vec<Vec<char>> = Vec::new();
    let mut i: usize = 0;
    while i < headers.len()
        invariant
            hv == strs_view(headers@),
            i <= headers@.len(),
            hs@.len() == i,
            vecs_view(hs@) == hv.take(i as int),
        decreases headers.len() - i,
    {
        let h = chars_of(headers[i]);
        hs.push(h);
        assert(vecs_view(hs@) =~= hv.take(i as int + 1)) by {
            assert(hs@[i as int]@ == hv[i as int]);
        }
        i = i + 1;
    }
    assert(hv.take(hv.len() as int) =~= hv);
    hs
}

fn row_chars(row: &Vec<String>) -> (cells: Vec<Vec<char>>)
    ensures
        vecs_view(cells@) == row@.map_values(|s: String| s@),
{
    let ghost v = row@.map_values(|s: String| s@);
    let mut cells: Vec<Vec<char>> = Vec::new();
    let mut j: usize = 0;
    while j < row.len()
        invariant
            v == row@.map_values(|s: String| s@),
            j <= row@.len(),
            cells@.len() == j,
            vecs_view(cells@) == v.take(j as int),
        decreases row.len() - j,
    {
        let c = chars_of(row[j].as_str());
        cells.push(c);
        assert(vecs_view(cells@) =~= v.take(j as int + 1)) by {
            assert(cells@[j as int]@ == v[j as int]);
        }
        j = j + 1;
    }
    assert(v.take(v.len() as int) =~= v);
    cells
}

fn rows_chars(rows: &Vec<Vec<String>>) -> (rs: Vec<Vec<Vec<char>>>)
    ensures
        rs@.map_values(|r: Vec<Vec<char>>| vecs_view(r@)) == rows_view(rows@),
{
    let ghost rv = rows_view(rows@);
    let mut rs: Vec<Vec<Vec<char>>> = Vec::new();
    let mut k: usize = 0;
    while k < rows.len()
        invariant
            rv == rows_view(rows@),
            k <= rows@.len(),
            rs@.len() == k,
            rs@.map_values(|r: Vec<Vec<char>>| vecs_view(r@)) == rv.take(k as int),
        decreases rows.len() - k,
    {
        let cells = row_chars(&rows[k]);
        rs.push(cells);
        assert(rs@.map_values(|r: Vec<Vec<char>>| vecs_view(r@)) =~= rv.take(k as int + 1)) by {
            assert(vecs_view(rs@[k as int]@) == rv[k as int]);
        }
        k = k + 1;
    }
    assert(rv.take(rv.len() as int) =~= rv);
    rs
}

fn column_widths(hs: &Vec<Vec<char>>, rs: &Vec<Vec<Vec<char>>>) -> (ws: Vec<usize>)
    ensures
        widths_view(ws@) == col_widths(vecs_view(hs@), rs@.map_values(|r: Vec<Vec<char>>| vecs_view(r@))),
{
    let ghost hv = vecs_view(hs@);
    let ghost rv = rs@.map_values(|r: Vec<Vec<char>>| vecs_view(r@));
    let ghost ws_spec = col_widths(hv, rv);
    let mut ws: Vec<usize> = Vec::new();
    let mut c: usize = 0;
    while c < hs.len()
        invariant
            hv == vecs_view(hs@),
            rv == rs@.map_values(|r: Vec<Vec<char>>| vecs_view(r@)),
            ws_spec == col_widths(hv, rv),
            c <= hs@.len(),
            ws@.len() == c,
            widths_view(ws@) == ws_spec.take(c as int),
        decreases hs.len() - c,
    {
        let w = column_width(&hs[c], rs, c);
        ws.push(w);
        assert(widths_view(ws@) =~= ws_spec.take(c as int + 1)) by {
            assert(ws@[c as int] as nat == ws_spec[c as int]);
        }
        c = c + 1;
    }
    assert(widths_view(ws@) =~= ws_spec);
    ws
}

/// A table of `headers` and `rows` in double-line borders, each column as wide as its
/// longest header or cell; a row short of cells shows the missing ones empty, and cells
/// beyond the headers are left out. Each line is in `color`, when one is given.
pub fn create_table(headers: &[&str], rows: &Vec<Vec<String>>, color: Option<&Color>) -> (r: String)
    ensures
        r@ == table_of(strs_view(headers@), rows_view(rows@), opt_view(color)),
{
    let ghost hv = strs_view(headers@);
    let ghost rv = rows_view(rows@);
    let hs = header_chars(headers);
    let rs = rows_chars(rows);
    let ws = column_widths(&hs, &rs);
    let ghost ws_spec = col_widths(hv, rv);
    let mut r = String::new();
    push_color_on(&mut r, color);
    push_border(&mut r, &ws, '╔', '╦', '╗');
    push_color_off(&mut r, color);
    r.push('\n');
    push_color_on(&mut r, color);
    push_row(&mut r, &hs, &ws);
    push_color_off(&mut r, color);
    r.push('\n');
    push_color_on(&mut r, color);
    push_border(&mut r, &ws, '╠', '╬', '╣');
    push_color_off(&mut r, color);
    r.push('\n');
    let ghost head = r@;
    let mut k: usize = 0;
    while k < rs.len()
        invariant
            rs@.map_values(|r: Vec<Vec<char>>| vecs_view(r@)) == rv,
            widths_view(ws@) == ws_spec,
            k <= rs@.len(),
            r@ == head + table_rows(rv, ws_spec, opt_view(color), k as int),
        decreases rs.len() - k,
    {
        push_color_on(&mut r, color);
        push_row(&mut r, &rs[k], &ws);
        push_color_off(&mut r, color);
        r.push('\n');
        k = k + 1;
        assert(r@ =~= head + table_rows(rv, ws_spec, opt_view(color), k as int));
    }
    push_color_on(&mut r, color);
    push_border(&mut r, &ws, '╚', '╩', '╝');
    push_color_off(&mut r, color);
    r.push('\n');
    assert(r@ =~= table_of(hv, rv, opt_view(color)));
    r
}

} // verus!
