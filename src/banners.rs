use vstd::prelude::*;
use crate::formatting::{center, terminal_width};
use crate::text::{
    chars_of, lines_of, longest, max_len, pad_right, push_chars, push_padded, push_repeat, spaces,
    split_lines, trim_end, trim_end_of,
};

verus! {

/// Where the text stands against the ASCII art.
#[derive(Clone, Copy, PartialEq, Eq, Structural, Debug)]
pub enum Position {
    Top,
    Middle,
    Bottom,
}

/// ASCII art with text beside it.
pub struct Banner<'a, 'b> {
    ascii_art: &'a str,
    text: &'b str,
    padding: usize,
    position: Position,
}

/// A banner's content: its art, its text, the spaces between them and the text's position.
pub struct BannerView {
    pub art: Seq<char>,
    pub text: Seq<char>,
    pub padding: nat,
    pub position: Position,
}

impl<'a, 'b> View for Banner<'a, 'b> {
    type V = BannerView;

    closed spec fn view(&self) -> BannerView {
        BannerView {
            art: self.ascii_art@,
            text: self.text@,
            padding: self.padding as nat,
            position: self.position,
        }
    }
}

/// The art line at which the first of `tn` text lines stands beside `an` art lines; 0
/// when the text is longer than the art.
pub open spec fn text_start(pos: Position, an: nat, tn: nat) -> nat {
    let spare: nat = if an >= tn { (an - tn) as nat } else { 0 };
    match pos {
        Position::Top => 0,
        Position::Middle => spare / 2,
        Position::Bottom => spare,
    }
}

/// The text line beside art line `i`, empty where there is none.
pub open spec fn companion(tl: Seq<Seq<char>>, start: nat, i: int) -> Seq<char> {
    if start <= i < start + tl.len() {
        tl[i - start]
    } else {
        seq![]
    }
}

/// The first `k` lines of a banner, each ended by a newline: art line padded to `aw`,
/// `pad` spaces, and its text line centered in `w` columns.
pub open spec fn banner_lines(
    al: Seq<Seq<char>>,
    tl: Seq<Seq<char>>,
    start: nat,
    aw: nat,
    pad: nat,
    w: nat,
    k: int,
) -> Seq<char>
    decreases k,
{
    if k <= 0 {
        seq![]
    } else {
        banner_lines(al, tl, start, aw, pad, w, k - 1) + pad_right(al[k - 1], aw) + spaces(pad)
            + center(companion(tl, start, k - 1), w) + seq!['\n']
    }
}

/// The banner `b` with its text centered in `w` columns, without trailing white space.
pub open spec fn render_of(b: BannerView, w: nat) -> Seq<char> {
    let al = lines_of(b.art);
    let tl = lines_of(b.text);
    let start = text_start(b.position, al.len(), tl.len());
    trim_end(banner_lines(al, tl, start, max_len(al), b.padding, w, al.len() as int))
}

impl<'a, 'b> Banner<'a, 'b> {
    /// A banner of `ascii_art` with `text` beside it at `position`, `padding` spaces apart.
    pub fn new(ascii_art: &'a str, text: &'b str, padding: usize, position: Position) -> (b: Self)
        ensures
            b@ == (BannerView { art: ascii_art@, text: text@, padding: padding as nat, position }),
    {
        Banner { ascii_art, text, padding, position }
    }

    /// The banner with its text lines centered in `width` columns.
    pub fn render_in(&self, width: usize) -> (r: String)
        ensures
            r@ == render_of(self@, width as nat),
    {
        let art = chars_of(self.ascii_art);
        let text = chars_of(self.text);
        let al = split_lines(&art);
        let tl = split_lines(&text);
        let ghost alv = al@.map_values(|l: Vec<char>| l@);
        let ghost tlv = tl@.map_values(|l: Vec<char>| l@);
        let aw = longest(&al);
        let an = al.len();
        let tn = tl.len();
        let spare: usize = if an >= tn { an - tn } else { 0 };
        let start: usize = match self.position {
            Position::Top => 0,
            Position::Middle => spare / 2,
            Position::Bottom => spare,
        };
        assert(start == text_start(self.position, alv.len(), tlv.len()));
        let empty: Vec<char> = Vec::new();
        let mut r = String::new();
        let mut i: usize = 0;
        while i < an
            invariant
                alv == al@.map_values(|l: Vec<char>| l@),
                tlv == tl@.map_values(|l: Vec<char>| l@),
                an == al@.len(),
                tn == tl@.len(),
                start <= an,
                empty@.len() == 0,
                i <= an,
                r@ == banner_lines(alv, tlv, start as nat, aw as nat, self.padding as nat, width as nat, i as int),
            decreases an - i,
        {
            push_padded(&mut r, &al[i], aw);
            push_repeat(&mut r, ' ', self.padding);
            let line = if i >= start && i - start < tn { &tl[i - start] } else { &empty };
            assert(line@ == companion(tlv, start as nat, i as int));
            let pad: usize = if width >= line.len() { (width - line.len()) / 2 } else { 0 };
            push_repeat(&mut r, ' ', pad);
            push_chars(&mut r, line);
            r.push('\n');
            i = i + 1;
            assert(r@ =~= banner_lines(alv, tlv, start as nat, aw as nat, self.padding as nat, width as nat, i as int));
        }
        let all = chars_of(r.as_str());
        let trimmed = trim_end_of(&all);
        let mut out = String::new();
        push_chars(&mut out, &trimmed);
        assert(out@ =~= render_of(self@, width as nat));
        out
    }

    /// The banner with its text lines centered in the terminal's width.
    pub fn render(&self) -> (r: String)
        ensures
            exists|w: nat| r@ == #[trigger] render_of(self@, w),
    {
        let w = terminal_width();
        self.render_in(w)
    }
}

/// The rendering of a banner of `ascii_art` with `text` at `position`, `padding` spaces
/// apart, its text centered in the terminal's width.
pub fn create_banner(ascii_art: &str, text: &str, padding: usize, position: Position) -> (r: String)
    ensures
        exists|w: nat|
            r@ == #[trigger] render_of(
                BannerView { art: ascii_art@, text: text@, padding: padding as nat, position },
                w,
            ),
{
    let banner = Banner::new(ascii_art, text, padding, position);
    banner.render()
}

/// With the text at the top and no longer than the art, text line `i` stands beside art
/// line `i`, and the art lines below the text have none.
pub proof fn lemma_top_aligns_from_first_line(tl: Seq<Seq<char>>, an: nat, i: int)
    requires
        tl.len() <= an,
        0 <= i < an,
    ensures
        i < tl.len() ==> companion(tl, text_start(Position::Top, an, tl.len()), i) == tl[i],
        i >= tl.len() ==> companion(tl, text_start(Position::Top, an, tl.len()), i) == Seq::<char>::empty(),
{
}

} // verus!
