//! A text frame buffer: a grid of characters, each with a style, that the
//! screens of the game draw into before it is printed.
use vstd::prelude::*;

use crate::card::suit_glyph;
use crate::card::value_glyph;
use crate::card::Card;
use crate::style::ansi_parameter;
use crate::style::csi;
use crate::style::style_escape;
use crate::style::Ansi;
use crate::style::TextStyle;

verus! {

/// Why drawing failed.
#[derive(Debug, Copy, Clone, PartialEq, Eq)]
pub enum RenderError {
    /// The terminal's size could not be read, or leaves no room.
    TerminalDimensionsBad,
    /// A drawing at position `.0` of size `.1` does not fit the buffer of size `.2`.
    DrawOutOfBounds((usize, usize), (usize, usize), (usize, usize)),
}

/// The result of drawing.
pub type RenderResult<T> = Result<T, RenderError>;

/// The glyphs a box is outlined with.
#[derive(Debug, Copy, Clone, PartialEq, Eq, Structural)]
pub enum BoxDrawingProfile {
    Normal,
}

/// The shading glyphs, from blank to dark.
pub const SHADING_0: char = ' ';
pub const SHADING_1: char = '\u{2591}';
pub const SHADING_2: char = '\u{2592}';
pub const SHADING_3: char = '\u{2593}';

/// The glyphs of a box outline, indexed by column then row: `[0][0]` is the
/// top-left corner, `[1][0]` the top edge, `[2][2]` the bottom-right corner.
pub open spec fn outline_glyphs(p: BoxDrawingProfile) -> [[char; 3]; 3] {
    match p {
        BoxDrawingProfile::Normal => [
            ['\u{250c}', '\u{2502}', '\u{2514}'],
            ['\u{2500}', ' ', '\u{2500}'],
            ['\u{2510}', '\u{2502}', '\u{2518}'],
        ],
    }
}

impl BoxDrawingProfile {
    /// The glyphs of the outline, indexed by column then row.
    pub fn data(&self) -> (r: [[char; 3]; 3])
        ensures
            r == outline_glyphs(*self),
    {
        match self {
            Self::Normal => [
                ['\u{250c}', '\u{2502}', '\u{2514}'],
                ['\u{2500}', ' ', '\u{2500}'],
                ['\u{2510}', '\u{2502}', '\u{2518}'],
            ],
        }
    }
}

/// A `w` by `h` grid of characters and styles, indexed by column then row.
pub struct TextFrameBuffer {
    w: usize,
    h: usize,
    view: Vec<Vec<char>>,
    style_view: Vec<Vec<TextStyle>>,
}

/// Whether a drawing at (`xs`, `ys`) of size `w` by `h` fits a buffer of
/// size `bw` by `bh`; the last column and row stay free.
pub open spec fn fits(xs: int, ys: int, w: int, h: int, bw: int, bh: int) -> bool {
    xs + w < bw && ys + h < bh
}

/// Whether (`x`, `y`) lies in the box at (`xs`, `ys`) of size `w` by `h`.
pub open spec fn in_box(x: int, y: int, xs: int, ys: int, w: int, h: int) -> bool {
    xs <= x < xs + w && ys <= y < ys + h
}

/// The grid `g` with the cells of the box set to `v`.
pub open spec fn filled<T>(g: Seq<Seq<T>>, v: T, xs: int, ys: int, w: int, h: int) -> Seq<Seq<T>> {
    Seq::new(g.len(), |x: int| Seq::new(g[x].len(), |y: int| if in_box(x, y, xs, ys, w, h) { v } else { g[x][y] }))
}

/// The grid `g` with the characters of `txt` written from (`x`, `y`) rightwards.
pub open spec fn written(g: Seq<Seq<char>>, txt: Seq<char>, x: int, y: int) -> Seq<Seq<char>> {
    Seq::new(
        g.len(),
        |i: int| Seq::new(g[i].len(), |j: int| if j == y && x <= i < x + txt.len() { txt[i - x] } else { g[i][j] }),
    )
}

/// The character at (`x`, `y`) once the box at (`xs`, `ys`) of size `w` by
/// `h` is outlined with glyphs `d` over grid `g`. Where edges meet in a box
/// one cell wide or high, the glyph drawn last wins: corners over edges,
/// the right edge over the left, the bottom over the top.
pub open spec fn outlined_cell(g: Seq<Seq<char>>, d: [[char; 3]; 3], xs: int, ys: int, w: int, h: int, x: int, y: int) -> char {
    let xe = xs + w - 1;
    let ye = ys + h - 1;
    if x == xe && y == ye {
        d[2][2]
    } else if x == xs && y == ye {
        d[0][2]
    } else if x == xe && y == ys {
        d[2][0]
    } else if x == xs && y == ys {
        d[0][0]
    } else if x == xe && ys < y < ye {
        d[2][1]
    } else if x == xs && ys < y < ye {
        d[0][1]
    } else if xs < x < xe && y == ye {
        d[1][2]
    } else if xs < x < xe && y == ys {
        d[1][0]
    } else {
        g[x][y]
    }
}

/// The grid `g` with the box at (`xs`, `ys`) of size `w` by `h` outlined with glyphs `d`.
pub open spec fn outlined(g: Seq<Seq<char>>, d: [[char; 3]; 3], xs: int, ys: int, w: int, h: int) -> Seq<Seq<char>> {
    Seq::new(g.len(), |x: int| Seq::new(g[x].len(), |y: int| outlined_cell(g, d, xs, ys, w, h, x, y)))
}

/// The error of a drawing at (`xs`, `ys`) of size `w` by `h` that does not fit `fb`.
pub open spec fn out_of_bounds(xs: usize, ys: usize, w: usize, h: usize, fb: TextFrameBuffer) -> RenderError {
    RenderError::DrawOutOfBounds((xs, ys), (w, h), (fb.spec_w() as usize, fb.spec_h() as usize))
}

/// Relies on `String::push`: it appends one character.
#[verifier::external_body]
fn push_char(s: &mut String, c: char)
    ensures
        final(s)@ == old(s)@.push(c),
{
    s.push(c);
}

/// A cell as terminal text: its style, its character, then a reset.
pub open spec fn cell_text(style: TextStyle, c: char) -> Seq<char> {
    style_escape(style) + seq![c] + csi() + ansi_parameter(Ansi::Reset) + seq!['m']
}

/// The first `n` cells of row `y` of the grids `cs` and `ss` as terminal text.
pub open spec fn row_text(cs: Seq<Seq<char>>, ss: Seq<Seq<TextStyle>>, y: int, n: int) -> Seq<char>
    decreases n,
{
    if n <= 0 {
        Seq::empty()
    } else {
        row_text(cs, ss, y, n - 1) + cell_text(ss[n - 1][y], cs[n - 1][y])
    }
}

/// The first `m` rows, each `w` cells wide, of the grids `cs` and `ss` as
/// terminal text, each row ended by a newline.
pub open spec fn frame_text(cs: Seq<Seq<char>>, ss: Seq<Seq<TextStyle>>, w: int, m: int) -> Seq<char>
    decreases m,
{
    if m <= 0 {
        Seq::empty()
    } else {
        frame_text(cs, ss, w, m - 1) + row_text(cs, ss, m - 1, w) + seq!['\n']
    }
}

/// Whether `g` is a grid of `w` columns of `h` cells.
pub open spec fn is_grid<T>(g: Seq<Seq<T>>, w: int, h: int) -> bool {
    g.len() == w && forall|x: int| 0 <= x < w ==> (#[trigger] g[x]).len() == h
}

impl TextFrameBuffer {
    pub closed spec fn spec_w(&self) -> nat {
        self.w as nat
    }

    pub closed spec fn spec_h(&self) -> nat {
        self.h as nat
    }

    /// The characters, indexed by column then row.
    pub closed spec fn chars(&self) -> Seq<Seq<char>> {
        self.view@.map_values(|c: Vec<char>| c@)
    }

    /// The styles, indexed by column then row.
    pub closed spec fn styles(&self) -> Seq<Seq<TextStyle>> {
        self.style_view@.map_values(|c: Vec<TextStyle>| c@)
    }

    pub open spec fn wf(&self) -> bool {
        &&& is_grid(self.chars(), self.spec_w() as int, self.spec_h() as int)
        &&& is_grid(self.styles(), self.spec_w() as int, self.spec_h() as int)
    }

    /// A blank buffer of `w` columns and `h` rows in the default style.
    pub fn with_size(w: usize, h: usize) -> (r: Self)
        ensures
            r.wf(),
            r.spec_w() == w,
            r.spec_h() == h,
            forall|x: int, y: int| 0 <= x < w && 0 <= y < h ==> #[trigger] r.chars()[x][y] == ' ',
            forall|x: int, y: int|
                0 <= x < w && 0 <= y < h ==> #[trigger] r.styles()[x][y] == TextStyle::default_style(),
    {
        let mut view: Vec<Vec<char>> = Vec::new();
        let mut style_view: Vec<Vec<TextStyle>> = Vec::new();
        let mut x: usize = 0;
        while x < w
            invariant
                x <= w,
                view@.len() == x,
                style_view@.len() == x,
                forall|i: int| 0 <= i < x ==> (#[trigger] view@[i])@.len() == h,
                forall|i: int| 0 <= i < x ==> (#[trigger] style_view@[i])@.len() == h,
                forall|i: int, j: int| 0 <= i < x && 0 <= j < h ==> #[trigger] view@[i]@[j] == ' ',
                forall|i: int, j: int|
                    0 <= i < x && 0 <= j < h ==> #[trigger] style_view@[i]@[j] == TextStyle::default_style(),
            decreases w - x,
        {
            let mut col: Vec<char> = Vec::new();
            let mut scol: Vec<TextStyle> = Vec::new();
            let mut y: usize = 0;
            while y < h
                invariant
                    y <= h,
                    col@.len() == y,
                    scol@.len() == y,
                    forall|j: int| 0 <= j < y ==> #[trigger] col@[j] == ' ',
                    forall|j: int| 0 <= j < y ==> #[trigger] scol@[j] == TextStyle::default_style(),
                decreases h - y,
            {
                col.push(' ');
                scol.push(TextStyle::default());
                y += 1;
            }
            view.push(col);
            style_view.push(scol);
            x += 1;
        }
        let r = Self { w, h, view, style_view };
        assert(is_grid(r.chars(), w as int, h as int));
        assert(is_grid(r.styles(), w as int, h as int));
        r
    }

    /// The number of columns.
    pub fn width(&self) -> (r: usize)
        ensures
            r == self.spec_w(),
    {
        self.w
    }

    /// The number of rows.
    pub fn height(&self) -> (r: usize)
        ensures
            r == self.spec_h(),
    {
        self.h
    }

    /// The character at column `x`, row `y`.
    pub fn char_at(&self, x: usize, y: usize) -> (r: char)
        requires
            self.wf(),
            x < self.spec_w(),
            y < self.spec_h(),
        ensures
            r == self.chars()[x as int][y as int],
    {
        assert(self.chars()[x as int] == self.view@[x as int]@);
        self.view[x][y]
    }

    /// The style at column `x`, row `y`.
    pub fn style_at(&self, x: usize, y: usize) -> (r: TextStyle)
        requires
            self.wf(),
            x < self.spec_w(),
            y < self.spec_h(),
        ensures
            r == self.styles()[x as int][y as int],
    {
        assert(self.styles()[x as int] == self.style_view@[x as int]@);
        self.style_view[x][y]
    }

    /// The buffer as terminal text: row by row, each cell in its style
    /// followed by a reset, each row ended by a newline.
    pub fn to_text(&self) -> (r: String)
        requires
            self.wf(),
        ensures
            r@ == frame_text(self.chars(), self.styles(), self.spec_w() as int, self.spec_h() as int),
    {
        let reset = Ansi::Reset.code();
        let mut txt = String::new();
        let mut y: usize = 0;
        while y < self.h
            invariant
                self.wf(),
                y <= self.spec_h(),
                reset@ == csi() + ansi_parameter(Ansi::Reset) + seq!['m'],
                txt@ == frame_text(self.chars(), self.styles(), self.spec_w() as int, y as int),
            decreases self.spec_h() - y,
        {
            let ghost above = txt@;
            let mut x: usize = 0;
            while x < self.w
                invariant
                    self.wf(),
                    y < self.spec_h(),
                    x <= self.spec_w(),
                    reset@ == csi() + ansi_parameter(Ansi::Reset) + seq!['m'],
                    txt@ == above + row_text(self.chars(), self.styles(), y as int, x as int),
                decreases self.spec_w() - x,
            {
                let ghost before = txt@;
                let e = self.style_at(x, y).escape();
                txt.append(e.as_str());
                push_char(&mut txt, self.char_at(x, y));
                txt.append(reset);
                assert(txt@ =~= before + cell_text(self.styles()[x as int][y as int], self.chars()[x as int][y as int]));
                x += 1;
            }
            push_char(&mut txt, '\n');
            y += 1;
        }
        txt
    }

    /// Fails unless a drawing at (`xs`, `ys`) of size `w` by `h` fits, with
    /// the last column and row left free.
    pub fn check_bounds(&self, xs: usize, ys: usize, w: usize, h: usize) -> (r: RenderResult<()>)
        ensures
            r is Ok <==> fits(xs as int, ys as int, w as int, h as int, self.spec_w() as int, self.spec_h() as int),
            r is Err ==> r == Err::<(), RenderError>(
                RenderError::DrawOutOfBounds((xs, ys), (w, h), (self.spec_w() as usize, self.spec_h() as usize)),
            ),
    {
        if xs >= self.w || w >= self.w - xs || ys >= self.h || h >= self.h - ys {
            Err(RenderError::DrawOutOfBounds((xs, ys), (w, h), (self.w, self.h)))
        } else {
            Ok(())
        }
    }

    fn put_char(&mut self, x: usize, y: usize, c: char)
        requires
            old(self).wf(),
            x < old(self).spec_w(),
            y < old(self).spec_h(),
        ensures
            final(self).wf(),
            final(self).spec_w() == old(self).spec_w(),
            final(self).spec_h() == old(self).spec_h(),
            final(self).chars() == old(self).chars().update(x as int, old(self).chars()[x as int].update(y as int, c)),
            final(self).styles() == old(self).styles(),
    {
        assert(self.chars()[x as int] == self.view@[x as int]@);
        let col = &mut self.view[x];
        col.set(y, c);
        assert(self.chars() =~= old(self).chars().update(x as int, old(self).chars()[x as int].update(y as int, c)));
    }

    fn put_style(&mut self, x: usize, y: usize, s: TextStyle)
        requires
            old(self).wf(),
            x < old(self).spec_w(),
            y < old(self).spec_h(),
        ensures
            final(self).wf(),
            final(self).spec_w() == old(self).spec_w(),
            final(self).spec_h() == old(self).spec_h(),
            final(self).styles() == old(self).styles().update(x as int, old(self).styles()[x as int].update(y as int, s)),
            final(self).chars() == old(self).chars(),
    {
        assert(self.styles()[x as int] == self.style_view@[x as int]@);
        let col = &mut self.style_view[x];
        col.set(y, s);
        assert(self.styles() =~= old(self).styles().update(x as int, old(self).styles()[x as int].update(y as int, s)));
    }

    /// Writes `txt` from column `x` of row `y` rightwards, one character per
    /// cell; fails, drawing nothing, unless it fits.
    pub fn text(&mut self, txt: &str, x: usize, y: usize) -> (r: RenderResult<()>)
        requires
            old(self).wf(),
        ensures
            final(self).wf(),
            final(self).spec_w() == old(self).spec_w(),
            final(self).spec_h() == old(self).spec_h(),
            final(self).styles() == old(self).styles(),
            r is Ok <==> fits(x as int, y as int, txt@.len() as int, 1, old(self).spec_w() as int, old(self).spec_h() as int),
            r is Err ==> r == Err::<(), RenderError>(out_of_bounds(x, y, txt@.len() as usize, 1, *old(self))),
            r is Ok ==> final(self).chars() == written(old(self).chars(), txt@, x as int, y as int),
            r is Err ==> final(self).chars() == old(self).chars(),
    {
        let n = txt.unicode_len();
        let checked = self.check_bounds(x, y, n, 1);
        if checked.is_err() {
            return checked;
        }
        let mut i: usize = 0;
        assert(self.chars() =~~= written(old(self).chars(), txt@.take(0), x as int, y as int));
        while i < n
            invariant
                n == txt@.len(),
                i <= n,
                x + n < self.spec_w(),
                y + 1 < self.spec_h(),
                self.wf(),
                self.spec_w() == old(self).spec_w(),
                self.spec_h() == old(self).spec_h(),
                self.styles() == old(self).styles(),
                self.chars() == written(old(self).chars(), txt@.take(i as int), x as int, y as int),
            decreases n - i,
        {
            let c = txt.get_char(i);
            self.put_char(x + i, y, c);
            assert(self.chars() =~~= written(old(self).chars(), txt@.take(i + 1), x as int, y as int));
            i += 1;
        }
        assert(txt@.take(n as int) =~= txt@);
        Ok(())
    }

    /// Sets the style of every cell of the box at (`xs`, `ys`) of size `w`
    /// by `h`; fails, changing nothing, unless it fits.
    pub fn style_box(&mut self, style: TextStyle, xs: usize, ys: usize, w: usize, h: usize) -> (r: RenderResult<()>)
        requires
            old(self).wf(),
        ensures
            final(self).wf(),
            final(self).spec_w() == old(self).spec_w(),
            final(self).spec_h() == old(self).spec_h(),
            final(self).chars() == old(self).chars(),
            r is Ok <==> fits(xs as int, ys as int, w as int, h as int, old(self).spec_w() as int, old(self).spec_h() as int),
            r is Err ==> r == Err::<(), RenderError>(out_of_bounds(xs, ys, w, h, *old(self))),
            r is Ok ==> final(self).styles() == filled(old(self).styles(), style, xs as int, ys as int, w as int, h as int),
            r is Err ==> final(self).styles() == old(self).styles(),
    {
        let checked = self.check_bounds(xs, ys, w, h);
        if checked.is_err() {
            return checked;
        }
        let mut x: usize = xs;
        while x < xs + w
            invariant
                xs <= x <= xs + w,
                xs + w < self.spec_w(),
                ys + h < self.spec_h(),
                self.wf(),
                self.spec_w() == old(self).spec_w(),
                self.spec_h() == old(self).spec_h(),
                self.chars() == old(self).chars(),
                forall|i: int, j: int| 0 <= i < self.spec_w() && 0 <= j < self.spec_h() ==>
                    #[trigger] self.styles()[i][j] == if in_box(i, j, xs as int, ys as int, (x - xs) as int, h as int) {
                        style
                    } else {
                        old(self).styles()[i][j]
                    },
            decreases xs + w - x,
        {
            let mut y: usize = ys;
            while y < ys + h
                invariant
                    xs <= x < xs + w,
                    ys <= y <= ys + h,
                    xs + w < self.spec_w(),
                    ys + h < self.spec_h(),
                    self.wf(),
                    self.spec_w() == old(self).spec_w(),
                    self.spec_h() == old(self).spec_h(),
                    self.chars() == old(self).chars(),
                    forall|i: int, j: int| 0 <= i < self.spec_w() && 0 <= j < self.spec_h() ==>
                        #[trigger] self.styles()[i][j] == if in_box(i, j, xs as int, ys as int, (x - xs) as int, h as int)
                            || (i == x && ys <= j < y) {
                            style
                        } else {
                            old(self).styles()[i][j]
                        },
                decreases ys + h - y,
            {
                self.put_style(x, y, style);
                y += 1;
            }
            x += 1;
        }
        assert(self.styles() =~~= filled(old(self).styles(), style, xs as int, ys as int, w as int, h as int));
        Ok(())
    }

    /// Sets the character of every cell of the box at (`xs`, `ys`) of size
    /// `w` by `h` to `value`; fails, changing nothing, unless it fits.
    pub fn fill_box(&mut self, value: char, xs: usize, ys: usize, w: usize, h: usize) -> (r: RenderResult<()>)
        requires
            old(self).wf(),
        ensures
            final(self).wf(),
            final(self).spec_w() == old(self).spec_w(),
            final(self).spec_h() == old(self).spec_h(),
            final(self).styles() == old(self).styles(),
            r is Ok <==> fits(xs as int, ys as int, w as int, h as int, old(self).spec_w() as int, old(self).spec_h() as int),
            r is Err ==> r == Err::<(), RenderError>(out_of_bounds(xs, ys, w, h, *old(self))),
            r is Ok ==> final(self).chars() == filled(old(self).chars(), value, xs as int, ys as int, w as int, h as int),
            r is Err ==> final(self).chars() == old(self).chars(),
    {
        let checked = self.check_bounds(xs, ys, w, h);
        if checked.is_err() {
            return checked;
        }
        let mut x: usize = xs;
        while x < xs + w
            invariant
                xs <= x <= xs + w,
                xs + w < self.spec_w(),
                ys + h < self.spec_h(),
                self.wf(),
                self.spec_w() == old(self).spec_w(),
                self.spec_h() == old(self).spec_h(),
                self.styles() == old(self).styles(),
                forall|i: int, j: int| 0 <= i < self.spec_w() && 0 <= j < self.spec_h() ==>
                    #[trigger] self.chars()[i][j] == if in_box(i, j, xs as int, ys as int, (x - xs) as int, h as int) {
                        value
                    } else {
                        old(self).chars()[i][j]
                    },
            decreases xs + w - x,
        {
            let mut y: usize = ys;
            while y < ys + h
                invariant
                    xs <= x < xs + w,
                    ys <= y <= ys + h,
                    xs + w < self.spec_w(),
                    ys + h < self.spec_h(),
                    self.wf(),
                    self.spec_w() == old(self).spec_w(),
                    self.spec_h() == old(self).spec_h(),
                    self.styles() == old(self).styles(),
                    forall|i: int, j: int| 0 <= i < self.spec_w() && 0 <= j < self.spec_h() ==>
                        #[trigger] self.chars()[i][j] == if in_box(i, j, xs as int, ys as int, (x - xs) as int, h as int)
                            || (i == x && ys <= j < y) {
                            value
                        } else {
                            old(self).chars()[i][j]
                        },
                decreases ys + h - y,
            {
                self.put_char(x, y, value);
                y += 1;
            }
            x += 1;
        }
        assert(self.chars() =~~= filled(old(self).chars(), value, xs as int, ys as int, w as int, h as int));
        Ok(())
    }

    /// Outlines the box at (`xs`, `ys`) of size `w` by `h` with the glyphs
    /// of `profile`: corners, edges between them, the inside untouched;
    /// fails, drawing nothing, unless it fits.
    pub fn outline_box(&mut self, profile: BoxDrawingProfile, xs: usize, ys: usize, w: usize, h: usize) -> (r: RenderResult<()>)
        requires
            old(self).wf(),
            w >= 1,
            h >= 1,
        ensures
            final(self).wf(),
            final(self).spec_w() == old(self).spec_w(),
            final(self).spec_h() == old(self).spec_h(),
            final(self).styles() == old(self).styles(),
            r is Ok <==> fits(xs as int, ys as int, w as int, h as int, old(self).spec_w() as int, old(self).spec_h() as int),
            r is Err ==> r == Err::<(), RenderError>(out_of_bounds(xs, ys, w, h, *old(self))),
            r is Ok ==> final(self).chars() == outlined(
                old(self).chars(),
                outline_glyphs(profile),
                xs as int,
                ys as int,
                w as int,
                h as int,
            ),
            r is Err ==> final(self).chars() == old(self).chars(),
    {
        let checked = self.check_bounds(xs, ys, w, h);
        if checked.is_err() {
            return checked;
        }
        let xe = xs + w - 1;
        let ye = ys + h - 1;
        let d = profile.data();
        let top = d[1][0];
        let bottom = d[1][2];
        let left = d[0][1];
        let right = d[2][1];
        let mut x: usize = xs + 1;
        while x < xe
            invariant
                xs + 1 <= x,
                x <= xe || x == xs + 1,
                xe == xs + w - 1,
                ye == ys + h - 1,
                xs + w < self.spec_w(),
                ys + h < self.spec_h(),
                self.wf(),
                self.spec_w() == old(self).spec_w(),
                self.spec_h() == old(self).spec_h(),
                self.styles() == old(self).styles(),
                forall|i: int, j: int| 0 <= i < self.spec_w() && 0 <= j < self.spec_h() ==>
                    #[trigger] self.chars()[i][j] == if xs < i < x && j == ye {
                        bottom
                    } else if xs < i < x && j == ys {
                        top
                    } else {
                        old(self).chars()[i][j]
                    },
            decreases xe - x,
        {
            self.put_char(x, ys, top);
            self.put_char(x, ye, bottom);
            x += 1;
        }
        let mut y: usize = ys + 1;
        while y < ye
            invariant
                ys + 1 <= y,
                y <= ye || y == ys + 1,
                xe == xs + w - 1,
                ye == ys + h - 1,
                xs + w < self.spec_w(),
                ys + h < self.spec_h(),
                self.wf(),
                self.spec_w() == old(self).spec_w(),
                self.spec_h() == old(self).spec_h(),
                self.styles() == old(self).styles(),
                forall|i: int, j: int| 0 <= i < self.spec_w() && 0 <= j < self.spec_h() ==>
                    #[trigger] self.chars()[i][j] == if i == xe && ys < j < y {
                        right
                    } else if i == xs && ys < j < y {
                        left
                    } else if xs < i < xe && j == ye {
                        bottom
                    } else if xs < i < xe && j == ys {
                        top
                    } else {
                        old(self).chars()[i][j]
                    },
            decreases ye - y,
        {
            self.put_char(xs, y, left);
            self.put_char(xe, y, right);
            y += 1;
        }
        self.put_char(xs, ys, d[0][0]);
        self.put_char(xe, ys, d[2][0]);
        self.put_char(xs, ye, d[0][2]);
        self.put_char(xe, ye, d[2][2]);
        assert(self.chars() =~~= outlined(old(self).chars(), outline_glyphs(profile), xs as int, ys as int, w as int, h as int));
        Ok(())
    }
}

/// A card as drawn: its face, or its back.
#[derive(Debug, Copy, Clone, PartialEq, Eq, Structural)]
pub enum RenderableCard {
    Front(Card),
    Back,
}

impl RenderableCard {
    /// The width of a drawn card.
    pub const W: usize = 5;

    /// The height of a drawn card.
    pub const H: usize = 5;

    /// The size of a drawn card.
    pub fn render_size(&self) -> (r: (usize, usize))
        ensures
            r == (5usize, 5usize),
    {
        (Self::W, Self::H)
    }

    /// Draws the card with its top-left corner at (`x`, `y`): an outline,
    /// then for a face its value at the top left and bottom right and its
    /// suit in the middle, in the suit's color, or for a back a shading.
    /// Fails, drawing nothing, unless the card fits.
    pub fn render(&self, fb: &mut TextFrameBuffer, x: usize, y: usize) -> (r: RenderResult<()>)
        requires
            old(fb).wf(),
        ensures
            final(fb).wf(),
            final(fb).spec_w() == old(fb).spec_w(),
            final(fb).spec_h() == old(fb).spec_h(),
            r is Ok <==> fits(x as int, y as int, 5, 5, old(fb).spec_w() as int, old(fb).spec_h() as int),
            r is Err ==> r == Err::<(), RenderError>(out_of_bounds(x, y, 5, 5, *old(fb))),
            r is Err ==> final(fb).chars() == old(fb).chars() && final(fb).styles() == old(fb).styles(),
            r is Ok ==> final(fb).chars()[x as int][y as int] == outline_glyphs(BoxDrawingProfile::Normal)[0][0],
            r is Ok ==> final(fb).chars()[x + 4][y + 4] == outline_glyphs(BoxDrawingProfile::Normal)[2][2],
            r is Ok ==> match *self {
                RenderableCard::Front(card) => {
                    &&& final(fb).chars()[x + 1][y + 1] == value_glyph(card.spec_value())[0]
                    &&& final(fb).chars()[x + 2][y + 2] == suit_glyph(card.spec_suit())[0]
                },
                RenderableCard::Back => final(fb).chars()[x + 2][y + 2] == SHADING_2,
            },
    {
        let outlined = fb.outline_box(BoxDrawingProfile::Normal, x, y, Self::W, Self::H);
        if outlined.is_err() {
            return outlined;
        }
        let ghost framed = fb.chars();
        let _ = fb.fill_box(' ', x + 1, y + 1, Self::W - 2, Self::H - 2);
        match self {
            Self::Front(card) => {
                let value_str = card.value().name();
                let suit_str = card.suit().name();
                let color = card.suit().color();
                let n = value_str.unicode_len();
                assert(n == 1 || n == 2);
                let _ = fb.text(value_str, x + 1, y + 1);
                let ghost first = fb.chars();
                let _ = fb.text(value_str, x + Self::W - 1 - n, y + Self::H - 2);
                let ghost second = fb.chars();
                let _ = fb.text(suit_str, x + Self::W / 2, y + Self::H / 2);
                let _ = fb.style_box(TextStyle::fg_only(color), x + 1, y + 1, Self::W - 2, Self::H - 2);
                assert(first[x + 1][y + 1] == value_glyph(card.spec_value())[0]);
                assert(second[x + 1][y + 1] == first[x + 1][y + 1]);
            },
            Self::Back => {
                let _ = fb.fill_box(SHADING_2, x + 1, y + 1, Self::W - 2, Self::H - 2);
            },
        }
        Ok(())
    }
}

} // verus!
