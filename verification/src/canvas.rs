//! A braille-dot canvas of exact size, drawn by `drawille`: each character
//! cell holds 2×4 dots, and out-of-range dots are ignored.

use drawille::Canvas;
use vstd::prelude::*;
use crate::text::{chars_of, string_from};

verus! {

#[verifier::external_type_specification]
#[verifier::external_body]
pub struct ExCanvas(Canvas);

/// What a `drawille::Canvas` holds: for each character cell `(column, row)`
/// that has been touched, its dot bits, its letter and whether it is coloured.
pub uninterp spec fn canvas_cells(c: Canvas) -> Map<(u16, u16), (u8, char, bool)>;

/// The size in cells (columns, rows) that a `drawille::Canvas` was made with.
pub uninterp spec fn canvas_size(c: Canvas) -> (u16, u16);

/// The distance between two coordinates.
pub open spec fn span(a: u32, b: u32) -> nat {
    if a <= b {
        (b - a) as nat
    } else {
        (a - b) as nat
    }
}

/// Step `i` of `r` from coordinate `a` toward `b`: `a` moved by
/// `⌊i · |b - a| / r⌋` toward `b`.
pub open spec fn step_coord(a: u32, b: u32, r: nat, i: nat) -> u32 {
    let d = span(a, b);
    if d == 0 {
        a
    } else if a <= b {
        (a + i * d / r) as u32
    } else {
        (a - i * d / r) as u32
    }
}

/// The dots that `drawille::Canvas::line` sets, in the order it sets them:
/// for `i` from 0 to `r`, the larger of the two spans, the dot at step `i`
/// of `r` from the first end toward the second on each axis.
pub open spec fn line_points(x1: u32, y1: u32, x2: u32, y2: u32) -> Seq<(u32, u32)> {
    let r = if span(x1, x2) >= span(y1, y2) {
        span(x1, x2)
    } else {
        span(y1, y2)
    };
    Seq::new(r + 1, |i: int| (step_coord(x1, x2, r, i as nat), step_coord(y1, y2, r, i as nat)))
}

/// No cell holds a letter or a colour.
pub open spec fn plain(cells: Map<(u16, u16), (u8, char, bool)>) -> bool {
    forall|k: (u16, u16)| cells.contains_key(k) ==> (#[trigger] cells[k]).1 == ' ' && !cells[k].2
}

/// A canvas with no touched cell.
pub open spec fn no_cells() -> Map<(u16, u16), (u8, char, bool)> {
    Map::empty()
}

/// Rows `r` show the cells: at least the canvas's size and every touched
/// cell, all of one length, each character `cell_char` of its cell.
pub open spec fn rows_show(
    cells: Map<(u16, u16), (u8, char, bool)>,
    size: (u16, u16),
    r: Seq<Seq<char>>,
) -> bool {
    &&& r.len() > size.1
    &&& forall|k: (u16, u16)| cells.contains_key(k) ==> k.1 < r.len()
    &&& forall|y: int|
        0 <= y < r.len() ==> {
            &&& (#[trigger] r[y]).len() > size.0
            &&& r[y].len() == r[0].len()
            &&& forall|k: (u16, u16)| cells.contains_key(k) ==> k.0 < r[y].len()
            &&& forall|x: int| 0 <= x < r[y].len() ==> #[trigger] r[y][x] == cell_char(cells, x, y)
        }
}

/// The bit of dot `(x, y)` within its cell (drawille's `PIXEL_MAP`).
pub open spec fn dot_bit(x: u32, y: u32) -> u8 {
    let col = x % 2;
    let row = y % 4;
    if row == 0 {
        if col == 0 { 0x01 } else { 0x08 }
    } else if row == 1 {
        if col == 0 { 0x02 } else { 0x10 }
    } else if row == 2 {
        if col == 0 { 0x04 } else { 0x20 }
    } else {
        if col == 0 { 0x40 } else { 0x80 }
    }
}

/// The cell that dot `(x, y)` lies in.
pub open spec fn cell_of(x: u32, y: u32) -> (u16, u16) {
    ((x / 2) as u16, (y / 4) as u16)
}

/// The cells after dot `(x, y)` is set.
pub open spec fn set_dot(
    cells: Map<(u16, u16), (u8, char, bool)>,
    x: u32,
    y: u32,
) -> Map<(u16, u16), (u8, char, bool)> {
    let k = cell_of(x, y);
    let old_bits: u8 = if cells.contains_key(k) {
        cells[k].0
    } else {
        0
    };
    cells.insert(k, (old_bits | dot_bit(x, y), ' ', false))
}

/// The cells after the dots `pts` are set in order.
pub open spec fn set_dots(
    cells: Map<(u16, u16), (u8, char, bool)>,
    pts: Seq<(u32, u32)>,
) -> Map<(u16, u16), (u8, char, bool)>
    decreases pts.len(),
{
    if pts.len() == 0 {
        cells
    } else {
        set_dots(set_dot(cells, pts[0].0, pts[0].1), pts.drop_first())
    }
}

/// The dot bits after dot `(x, y)` is set.
pub open spec fn set_bit(bits: Map<(u16, u16), u8>, x: u32, y: u32) -> Map<(u16, u16), u8> {
    let k = cell_of(x, y);
    let old_bits: u8 = if bits.contains_key(k) {
        bits[k]
    } else {
        0
    };
    bits.insert(k, old_bits | dot_bit(x, y))
}

/// The dot bits after the dots `pts` are set in order.
pub open spec fn set_bits(bits: Map<(u16, u16), u8>, pts: Seq<(u32, u32)>) -> Map<(u16, u16), u8>
    decreases pts.len(),
{
    if pts.len() == 0 {
        bits
    } else {
        set_bits(set_bit(bits, pts[0].0, pts[0].1), pts.drop_first())
    }
}

/// No cell is coloured.
pub open spec fn uncoloured(cells: Map<(u16, u16), (u8, char, bool)>) -> bool {
    forall|k: (u16, u16)| cells.contains_key(k) ==> !(#[trigger] cells[k]).2
}

/// The character that drawille shows for cell `(x, y)`: the braille pattern
/// of its dots, its letter when it has no dots, a space when untouched.
pub open spec fn cell_char(cells: Map<(u16, u16), (u8, char, bool)>, x: int, y: int) -> char {
    let k = (x as u16, y as u16);
    if cells.contains_key(k) {
        if cells[k].0 == 0 {
            cells[k].1
        } else {
            (0x2800 + cells[k].0) as char
        }
    } else {
        ' '
    }
}

/// `Canvas::new`: an empty canvas of `width / 2` columns and `height / 4` rows.
#[verifier::external_body]
fn canvas_new(width: u32, height: u32) -> (c: Canvas)
    ensures
        canvas_cells(c) == no_cells(),
        canvas_size(c) == ((width / 2) as u16, (height / 4) as u16),
{
    Canvas::new(width, height)
}

/// `Canvas::set`: sets dot `(x, y)`: the bit of the dot is or-ed into its
/// cell (a new cell starts with no bits), and the cell's letter becomes a
/// space and its colour flag is cleared (drawille assigns `' '` and `false`
/// after `or_insert`). It is only called on canvases without letters or
/// colours.
#[verifier::external_body]
fn canvas_set(c: &mut Canvas, x: u32, y: u32)
    requires
        plain(canvas_cells(*old(c))),
    ensures
        canvas_cells(*final(c)) == set_dot(canvas_cells(*old(c)), x, y),
        canvas_size(*final(c)) == canvas_size(*old(c)),
{
    c.set(x, y);
}

/// `Canvas::clear`: removes every cell.
#[verifier::external_body]
fn canvas_clear(c: &mut Canvas)
    ensures
        canvas_cells(*final(c)) == no_cells(),
        canvas_size(*final(c)) == canvas_size(*old(c)),
{
    c.clear();
}

/// `Canvas::line`: sets, with `Canvas::set` and in order, the dots
/// `line_points` of the line from `(x1, y1)` to `(x2, y2)`. Its products of
/// coordinate differences must fit in `u32`. It is only called on canvases
/// without letters or colours.
#[verifier::external_body]
fn canvas_line(c: &mut Canvas, x1: u32, y1: u32, x2: u32, y2: u32)
    requires
        x1 <= 0xffff,
        y1 <= 0xffff,
        x2 <= 0xffff,
        y2 <= 0xffff,
        plain(canvas_cells(*old(c))),
    ensures
        canvas_cells(*final(c)) == set_dots(canvas_cells(*old(c)), line_points(x1, y1, x2, y2)),
        canvas_size(*final(c)) == canvas_size(*old(c)),
{
    c.line(x1, y1, x2, y2);
}

/// `Canvas::rows`: one string per cell row, covering at least the canvas's
/// size and every touched cell; for an uncoloured canvas each character is
/// `cell_char` of its cell.
#[verifier::external_body]
fn canvas_rows(c: &Canvas) -> (r: Vec<String>)
    ensures
        uncoloured(canvas_cells(*c)) ==> rows_show(
            canvas_cells(*c),
            canvas_size(*c),
            r@.map_values(|s: String| s@),
        ),
{
    c.rows()
}

pub open spec fn fit(s: Seq<char>, n: nat) -> Seq<char> {
    if s.len() >= n {
        s.take(n as int)
    } else {
        s + Seq::new((n - s.len()) as nat, |i: int| ' ')
    }
}

/// A braille canvas of `w_dots` × `h_dots` dots.
pub struct BrailleCanvas {
    inner: Canvas,
    w_dots: u32,
    h_dots: u32,
}

impl BrailleCanvas {
    /// Width in dots.
    pub closed spec fn width(&self) -> u32 {
        self.w_dots
    }

    /// Height in dots.
    pub closed spec fn height(&self) -> u32 {
        self.h_dots
    }

    /// The dot bits of each touched cell.
    pub closed spec fn cells(&self) -> Map<(u16, u16), u8> {
        canvas_cells(self.inner).map_values(|v: (u8, char, bool)| v.0)
    }

    /// Every cell shows its dots (no letter, no colour), and the drawing size
    /// is the canvas's size in cells.
    pub closed spec fn wf(&self) -> bool {
        &&& forall|k: (u16, u16)|
            canvas_cells(self.inner).contains_key(k) ==> (#[trigger] canvas_cells(self.inner)[k]).1
                == ' ' && !canvas_cells(self.inner)[k].2
        &&& canvas_size(self.inner) == ((self.w_dots / 2) as u16, (self.h_dots / 4) as u16)
    }

    pub fn new(w_dots: u32, h_dots: u32) -> (c: Self)
        ensures
            c.wf(),
            c.width() == w_dots,
            c.height() == h_dots,
            c.cells() == Map::<(u16, u16), u8>::empty(),
    {
        let c = BrailleCanvas { inner: canvas_new(w_dots, h_dots), w_dots, h_dots };
        assert(c.cells() =~= Map::<(u16, u16), u8>::empty());
        c
    }

    /// Sets dot `(x, y)` when it lies on the canvas.
    pub fn set(&mut self, x: u32, y: u32)
        requires
            old(self).wf(),
        ensures
            final(self).wf(),
            final(self).width() == old(self).width(),
            final(self).height() == old(self).height(),
            final(self).cells() == if x < old(self).width() && y < old(self).height() {
                let k = cell_of(x, y);
                let b: u8 = if old(self).cells().contains_key(k) {
                    old(self).cells()[k]
                } else {
                    0
                };
                old(self).cells().insert(k, b | dot_bit(x, y))
            } else {
                old(self).cells()
            },
    {
        if x < self.w_dots && y < self.h_dots {
            canvas_set(&mut self.inner, x, y);
            assert(self.cells() =~= ({
                let k = cell_of(x, y);
                let b: u8 = if old(self).cells().contains_key(k) {
                    old(self).cells()[k]
                } else {
                    0
                };
                old(self).cells().insert(k, b | dot_bit(x, y))
            }));
        }
    }

    /// Removes every dot.
    pub fn clear(&mut self)
        requires
            old(self).wf(),
        ensures
            final(self).wf(),
            final(self).width() == old(self).width(),
            final(self).height() == old(self).height(),
            final(self).cells() == Map::<(u16, u16), u8>::empty(),
    {
        canvas_clear(&mut self.inner);
        assert(self.cells() =~= Map::<(u16, u16), u8>::empty());
    }

    /// Draws a line between two dots; nothing happens unless both ends lie on
    /// the canvas.
    pub fn line(&mut self, x1: u32, y1: u32, x2: u32, y2: u32)
        requires
            old(self).wf(),
            x1 < old(self).width() && y1 < old(self).height() && x2 < old(self).width() && y2
                < old(self).height() ==> x1 <= 0xffff && y1 <= 0xffff && x2 <= 0xffff && y2
                <= 0xffff,
        ensures
            final(self).wf(),
            final(self).width() == old(self).width(),
            final(self).height() == old(self).height(),
            !(x1 < old(self).width() && y1 < old(self).height() && x2 < old(self).width() && y2
                < old(self).height()) ==> final(self).cells() == old(self).cells(),
            x1 < old(self).width() && y1 < old(self).height() && x2 < old(self).width() && y2
                < old(self).height() ==> final(self).cells() == set_bits(
                old(self).cells(),
                line_points(x1, y1, x2, y2),
            ),
    {
        if x1 < self.w_dots && y1 < self.h_dots && x2 < self.w_dots && y2 < self.h_dots {
            let ghost pts = line_points(x1, y1, x2, y2);
            canvas_line(&mut self.inner, x1, y1, x2, y2);
            proof {
                lemma_set_dots_plain(canvas_cells(old(self).inner), pts);
                lemma_set_dots_bits(canvas_cells(old(self).inner), pts);
            }
        }
    }

    /// Exactly `h_dots / 4` rows of exactly `w_dots / 2` characters, each the
    /// braille pattern of its cell's dots (a space for a cell without dots).
    pub fn rows(&self) -> (r: Vec<String>)
        requires
            self.wf(),
            self.width() / 2 <= 0xffff,
            self.height() / 4 <= 0xffff,
        ensures
            r.len() == self.height() / 4,
            forall|y: int|
                0 <= y < r.len() ==> (#[trigger] r[y])@ == Seq::new(
                    (self.width() / 2) as nat,
                    |x: int| self.glyph(x, y),
                ),
    {
        let rows_needed = (self.h_dots / 4) as usize;
        let cols_needed = (self.w_dots / 2) as usize;
        let inner = canvas_rows(&self.inner);
        proof {
            let cells = canvas_cells(self.inner);
            assert(uncoloured(cells));
            let rv = inner@.map_values(|s: String| s@);
            assert(rows_show(cells, canvas_size(self.inner), rv));
            assert forall|i: int| 0 <= i < inner.len() implies (#[trigger] inner[i])@.len()
                > cols_needed by {
                assert(rv[i] == inner[i]@);
            }
            assert forall|i: int, x: int|
                0 <= i < inner.len() && 0 <= x < inner[i]@.len() implies #[trigger] inner[i]@[x]
                == cell_char(cells, x, i) by {
                assert(rv[i] == inner[i]@);
                assert(rv[i][x] == cell_char(cells, x, i));
            }
        }
        let mut out: Vec<String> = Vec::new();
        let mut y: usize = 0;
        while y < rows_needed && y < inner.len()
            invariant
                self.wf(),
                rows_needed == self.height() / 4,
                cols_needed == self.width() / 2,
                inner.len() > rows_needed,
                y <= rows_needed,
                out.len() == y,
                forall|i: int| 0 <= i < inner.len() ==> (#[trigger] inner[i])@.len() > cols_needed,
                forall|i: int, x: int|
                    0 <= i < inner.len() && 0 <= x < inner[i]@.len() ==> #[trigger] inner[i]@[x]
                        == cell_char(canvas_cells(self.inner), x, i),
                forall|i: int|
                    0 <= i < y ==> (#[trigger] out[i])@ == Seq::new(
                        cols_needed as nat,
                        |x: int| self.glyph(x, i),
                    ),
            decreases rows_needed - y,
        {
            let chars = chars_of(inner[y].as_str());
            let mut row: Vec<char> = Vec::new();
            if chars.len() >= cols_needed {
                let mut x: usize = 0;
                while x < cols_needed
                    invariant
                        x <= cols_needed,
                        cols_needed <= chars@.len(),
                        row@ == chars@.take(x as int),
                    decreases cols_needed - x,
                {
                    row.push(chars[x]);
                    x += 1;
                    assert(row@ =~= chars@.take(x as int));
                }
            } else {
                row = chars.clone();
                while row.len() < cols_needed
                    invariant
                        row@.len() <= cols_needed,
                        row@.take(chars@.len() as int) == chars@,
                        chars@.len() <= row@.len(),
                        forall|j: int| chars@.len() <= j < row@.len() ==> row@[j] == ' ',
                    decreases cols_needed - row@.len(),
                {
                    let ghost pr = row@;
                    row.push(' ');
                    assert(row@.take(chars@.len() as int) =~= pr.take(chars@.len() as int));
                }
            }
            let s = string_from(row.as_slice());
            proof {
                assert forall|x: int| 0 <= x < cols_needed implies s@[x] == self.glyph(x, y as int) by {
                    assert(inner[y as int]@[x] == cell_char(canvas_cells(self.inner), x, y as int));
                    lemma_glyph(self, x, y as int);
                }
                assert(s@ =~= Seq::new(cols_needed as nat, |x: int| self.glyph(x, y as int)));
            }
            out.push(s);
            y += 1;
        }
        out
    }

    /// The character shown for cell `(x, y)`.
    pub open spec fn glyph(&self, x: int, y: int) -> char {
        let k = (x as u16, y as u16);
        if self.cells().contains_key(k) && self.cells()[k] != 0 {
            (0x2800 + self.cells()[k]) as char
        } else {
            ' '
        }
    }
}

proof fn lemma_glyph(c: &BrailleCanvas, x: int, y: int)
    requires
        c.wf(),
    ensures
        cell_char(canvas_cells(c.inner), x, y) == c.glyph(x, y),
{
    let k = (x as u16, y as u16);
    let cells = canvas_cells(c.inner);
    if cells.contains_key(k) {
        assert(c.cells()[k] == cells[k].0);
    }
}

proof fn lemma_set_dots_bits(cells: Map<(u16, u16), (u8, char, bool)>, pts: Seq<(u32, u32)>)
    ensures
        set_dots(cells, pts).map_values(|v: (u8, char, bool)| v.0) == set_bits(
            cells.map_values(|v: (u8, char, bool)| v.0),
            pts,
        ),
    decreases pts.len(),
{
    if pts.len() > 0 {
        let next = set_dot(cells, pts[0].0, pts[0].1);
        assert(next.map_values(|v: (u8, char, bool)| v.0) =~= set_bit(
            cells.map_values(|v: (u8, char, bool)| v.0),
            pts[0].0,
            pts[0].1,
        ));
        lemma_set_dots_bits(next, pts.drop_first());
    }
}

proof fn lemma_set_dots_plain(cells: Map<(u16, u16), (u8, char, bool)>, pts: Seq<(u32, u32)>)
    requires
        forall|k: (u16, u16)| cells.contains_key(k) ==> (#[trigger] cells[k]).1 == ' ' && !cells[k].2,
    ensures
        forall|k: (u16, u16)|
            set_dots(cells, pts).contains_key(k) ==> (#[trigger] set_dots(cells, pts)[k]).1 == ' '
                && !set_dots(cells, pts)[k].2,
    decreases pts.len(),
{
    if pts.len() > 0 {
        let next = set_dot(cells, pts[0].0, pts[0].1);
        assert(set_dots(cells, pts) == set_dots(next, pts.drop_first()));
        assert forall|k: (u16, u16)| next.contains_key(k) implies (#[trigger] next[k]).1 == ' '
            && !next[k].2 by {}
        lemma_set_dots_plain(next, pts.drop_first());
    }
}

} // verus!
