//! A character grid with per-cell attributes and colors, drawn to the
//! terminal by differential updates.

use vstd::prelude::*;

use crate::attr::Attr;
use crate::color::Color;
use crate::attr::attr_ansi;
use crate::color::color_ansi;
use crate::text::{dec, push_char, push_decimal, push_str};

verus! {

/// Represents a single cell in the framebuffer.
#[derive(Clone, Copy, PartialEq, Eq, Debug, Structural)]
pub struct Cell {
    /// The character displayed in the cell.
    pub ch: char,
    /// Text attributes (bold, italic, underline, etc.)
    pub attrs: Attr,
    /// Foreground color
    pub fg: Color,
    /// Background color
    pub bg: Color,
}

/// The cell of a cleared framebuffer: a space with normal attributes and no colors.
pub open spec fn blank_cell() -> Cell {
    Cell { ch: ' ', attrs: Attr { bits: 1 }, fg: Color::NoColor, bg: Color::NoColor }
}

impl Cell {
    /// Create a new cell with default values.
    ///
    /// Returns a `Cell` instance with default attributes and colors.
    pub fn new() -> (r: Cell)
        ensures
            r == blank_cell(),
    {
        Cell { ch: ' ', attrs: Attr::default(), fg: Color::default(), bg: Color::default() }
    }
}

impl Default for Cell {
    fn default() -> (r: Cell)
        ensures
            r == blank_cell(),
    {
        Cell::new()
    }
}

/// Represents the horizontal alignment of text.
#[derive(Clone, Copy, PartialEq, Eq, Debug)]
pub enum Align {
    Left,
    Center,
    Right,
}

/// Represents the framebuffer for rendering.
#[derive(Clone, PartialEq, Debug)]
pub struct Framebuffer {
    /// The width of the framebuffer.
    pub width: usize,
    /// The height of the framebuffer.
    pub height: usize,
    /// The cells in row-major order: cell `(x, y)` at position `y * width + x`.
    pub buffer: Vec<Cell>,
}

/// The position of cell `(x, y)` in the row-major cell sequence of a grid of width `w`.
pub open spec fn index_of(w: int, x: int, y: int) -> int {
    y * w + x
}

/// `cells` with cell `(x, y)` replaced by `c`, when `(x, y)` lies inside
/// the `w` by `h` grid; otherwise `cells` unchanged.
pub open spec fn put_cell(cells: Seq<Cell>, w: int, h: int, x: int, y: int, c: Cell) -> Seq<Cell> {
    if 0 <= x < w && 0 <= y < h {
        cells.update(index_of(w, x, y), c)
    } else {
        cells
    }
}

/// Cell `(x, y)` sits at position `y * w + x`, and position `k` holds cell
/// `(k % w, k / w)`.
pub proof fn lemma_coords(w: int, x: int, y: int)
    requires
        0 <= x < w,
        0 <= y,
    ensures
        index_of(w, x, y) % w == x,
        index_of(w, x, y) / w == y,
        0 <= index_of(w, x, y),
{
    vstd::arithmetic::div_mod::lemma_fundamental_div_mod_converse(index_of(w, x, y), w, y, x);
    assert(0 <= y * w) by (nonlinear_arith)
        requires
            0 <= y,
            0 < w,
    ;
}

/// A position inside a `w` by `h` grid has its column below `w` and its row below `h`,
/// and is the position of that cell.
pub proof fn lemma_position(w: int, h: int, k: int)
    requires
        0 < w,
        0 <= h,
        0 <= k < w * h,
    ensures
        0 <= k % w < w,
        0 <= k / w < h,
        index_of(w, k % w, k / w) == k,
{
    vstd::arithmetic::div_mod::lemma_fundamental_div_mod(k, w);
    vstd::arithmetic::div_mod::lemma_mod_bound(k, w);
    vstd::arithmetic::div_mod::lemma_div_pos_is_pos(k, w);
    let q = k / w;
    let r = k % w;
    assert(q < h) by (nonlinear_arith)
        requires
            k == w * q + r,
            0 <= r,
            k < w * h,
            0 < w,
    ;
    vstd::arithmetic::mul::lemma_mul_is_commutative(w, q);
}

/// A cell inside a `w` by `h` grid lies at a position below `w * h`.
pub proof fn lemma_index_bound(w: int, h: int, x: int, y: int)
    requires
        0 <= x < w,
        0 <= y < h,
    ensures
        0 <= index_of(w, x, y) < w * h,
{
    assert(0 <= y * w + x < w * h) by (nonlinear_arith)
        requires
            0 <= x < w,
            0 <= y < h,
    ;
}

/// Cell `k` after cell `(x, y)` is replaced by `c`.
pub proof fn lemma_put_at(cells: Seq<Cell>, w: int, h: int, x: int, y: int, c: Cell, k: int)
    requires
        0 <= w,
        0 <= h,
        cells.len() == w * h,
        0 <= k < w * h,
        0 <= x,
        0 <= y,
    ensures
        0 <= k % w < w,
        0 <= k / w < h,
        put_cell(cells, w, h, x, y, c).len() == cells.len(),
        put_cell(cells, w, h, x, y, c)[k] == if k % w == x && k / w == y {
            c
        } else {
            cells[k]
        },
{
    assert(w > 0) by (nonlinear_arith)
        requires
            0 <= k < w * h,
            0 <= w,
            0 <= h,
    ;
    lemma_position(w, h, k);
    if x < w && y < h {
        lemma_coords(w, x, y);
        lemma_index_bound(w, h, x, y);
    }
}

impl Framebuffer {
    /// The cells of the framebuffer in row-major order.
    pub open spec fn cells(&self) -> Seq<Cell> {
        self.buffer@
    }

    /// The framebuffer holds exactly `width * height` cells.
    pub open spec fn wf(&self) -> bool {
        self.cells().len() == self.width * self.height
    }

    /// Create a new framebuffer with the specified width and height.
    ///
    /// * `width`: The width of the framebuffer.
    /// * `height`: The height of the framebuffer.
    ///
    /// Returns a new `Framebuffer` instance.
    pub fn new(width: usize, height: usize) -> (r: Framebuffer)
        requires
            width * height <= usize::MAX,
        ensures
            r.wf(),
            r.width == width,
            r.height == height,
            r.cells() == Seq::new((width * height) as nat, |k: int| blank_cell()),
    {
        let n = width * height;
        let mut buffer: Vec<Cell> = Vec::new();
        let mut i: usize = 0;
        while i < n
            invariant
                i <= n,
                buffer@ == Seq::new(i as nat, |k: int| blank_cell()),
            decreases n - i,
        {
            buffer.push(Cell::default());
            i = i + 1;
        }
        Framebuffer { width, height, buffer }
    }

    /// Initialize the buffer.
    pub fn clear(&mut self)
        ensures
            final(self).width == old(self).width,
            final(self).height == old(self).height,
            final(self).cells() == Seq::new(old(self).cells().len(), |k: int| blank_cell()),
    {
        let n = self.buffer.len();
        let mut i: usize = 0;
        while i < n
            invariant
                i <= n,
                n == self.buffer@.len(),
                self.width == old(self).width,
                self.height == old(self).height,
                self.buffer@.len() == old(self).buffer@.len(),
                forall|k: int| 0 <= k < i ==> self.buffer@[k] == blank_cell(),
            decreases n - i,
        {
            self.buffer.set(i, Cell::default());
            i = i + 1;
        }
        assert(self.cells() =~= Seq::new(old(self).cells().len(), |k: int| blank_cell()));
    }

    /// Write a character and its attributes to the buffer.
    ///
    /// * `x`: The x-coordinate of the cell to modify.
    /// * `y`: The y-coordinate of the cell to modify.
    /// * `ch`: The character to display in the cell.
    /// * `attrs`: The attributes of the cell.
    /// * `fg`: The foreground color of the cell.
    /// * `bg`: The background color of the cell.
    pub fn set_char(&mut self, x: usize, y: usize, ch: char, attrs: Attr, fg: Color, bg: Color)
        requires
            old(self).wf(),
        ensures
            final(self).wf(),
            final(self).width == old(self).width,
            final(self).height == old(self).height,
            final(self).cells() == put_cell(
                old(self).cells(),
                old(self).width as int,
                old(self).height as int,
                x as int,
                y as int,
                Cell { ch, attrs, fg, bg },
            ),
    {
        let n = self.buffer.len();
        if x < self.width && y < self.height {
            proof {
                lemma_index_bound(self.width as int, self.height as int, x as int, y as int);
            }
            let idx = y * self.width + x;
            self.buffer.set(idx, Cell { ch, attrs, fg, bg });
        }
    }
}


/// `a - b`, or 0 when `b > a`.
pub open spec fn sat_sub(a: int, b: int) -> int {
    if a >= b { a - b } else { 0 }
}

/// The column of the first character of a string of `len` characters
/// drawn at column `x` with alignment `align`.
pub open spec fn str_start(x: int, len: int, align: Align) -> int {
    match align {
        Align::Left => x,
        Align::Center => sat_sub(x, len / 2),
        Align::Right => sat_sub(x, len),
    }
}

/// Cell `(cx, cy)`, which held `c`, after the characters `s` are written in
/// row `y` from column `start` on, each with the given attributes and colors.
pub open spec fn str_cell(
    c: Cell,
    cx: int,
    cy: int,
    y: int,
    start: int,
    s: Seq<char>,
    attrs: Attr,
    fg: Color,
    bg: Color,
) -> Cell {
    if cy == y && start <= cx < start + s.len() {
        Cell { ch: s[cx - start], attrs, fg, bg }
    } else {
        c
    }
}

/// The cells of a grid of width `w` after the characters `s` are written in
/// row `y` from column `start` on; characters that fall outside the grid are dropped.
pub open spec fn str_cells(
    cells: Seq<Cell>,
    w: int,
    y: int,
    start: int,
    s: Seq<char>,
    attrs: Attr,
    fg: Color,
    bg: Color,
) -> Seq<Cell> {
    Seq::new(cells.len(), |k: int| str_cell(cells[k], k % w, k / w, y, start, s, attrs, fg, bg))
}

/// Cell `(cx, cy)`, which held `c`, after the rectangle from `(x0, y0)` to
/// `(x1, y1)` (corners included) is filled with `cell`.
pub open spec fn line_cell(
    c: Cell,
    cx: int,
    cy: int,
    x0: int,
    x1: int,
    y0: int,
    y1: int,
    cell: Cell,
) -> Cell {
    if x0 <= cx <= x1 && y0 <= cy <= y1 {
        cell
    } else {
        c
    }
}

/// The cells after the vertical line `ch` is drawn in column `x` from row
/// `y0` to row `y1` (both included).
pub open spec fn vline_cells(
    cells: Seq<Cell>,
    w: int,
    x: int,
    y0: int,
    y1: int,
    cell: Cell,
) -> Seq<Cell> {
    Seq::new(cells.len(), |k: int| line_cell(cells[k], k % w, k / w, x, x, y0, y1, cell))
}

/// The cells after a horizontal line is drawn in row `y` from column `x0`
/// to column `x1` (both included).
pub open spec fn hline_cells(
    cells: Seq<Cell>,
    w: int,
    y: int,
    x0: int,
    x1: int,
    cell: Cell,
) -> Seq<Cell> {
    Seq::new(cells.len(), |k: int| line_cell(cells[k], k % w, k / w, x0, x1, y, y, cell))
}

/// The border character at `(x, y)` of a `w` by `h` grid, if that cell is on the border.
/// When the grid is one cell wide or high, the corners drawn later win.
pub open spec fn border_char(w: int, h: int, x: int, y: int) -> Option<char> {
    if x == w - 1 && y == h - 1 {
        Some('\u{256F}')
    } else if x == 0 && y == h - 1 {
        Some('\u{2570}')
    } else if x == w - 1 && y == 0 {
        Some('\u{256E}')
    } else if x == 0 && y == 0 {
        Some('\u{256D}')
    } else if (y == 0 || y == h - 1) && 1 <= x < w - 1 {
        Some('\u{2500}')
    } else if (x == 0 || x == w - 1) && 1 <= y < h - 1 {
        Some('\u{2502}')
    } else {
        None
    }
}

/// Cell `(x, y)`, which held `c`, after the border of the `w` by `h` grid is drawn.
pub open spec fn border_cell(
    c: Cell,
    w: int,
    h: int,
    x: int,
    y: int,
    attrs: Attr,
    fg: Color,
    bg: Color,
) -> Cell {
    match border_char(w, h, x, y) {
        Some(ch) => Cell { ch, attrs, fg, bg },
        None => c,
    }
}

/// The cells after the border of the `w` by `h` grid is drawn.
pub open spec fn border_cells(
    cells: Seq<Cell>,
    w: int,
    h: int,
    attrs: Attr,
    fg: Color,
    bg: Color,
) -> Seq<Cell> {
    Seq::new(cells.len(), |k: int| border_cell(cells[k], w, h, k % w, k / w, attrs, fg, bg))
}

/// The number of columns and rows of `other` (of size `ow` by `oh`) that
/// fit into a `w` by `h` grid when placed at `(xo, yo)`.
pub open spec fn overlap(ow: int, oh: int, w: int, h: int, xo: int, yo: int) -> (int, int) {
    let mx = if ow < sat_sub(w, xo) { ow } else { sat_sub(w, xo) };
    let my = if oh < sat_sub(h, yo) { oh } else { sat_sub(h, yo) };
    (mx, my)
}

/// The cells after the top-left part of `other` (a grid of width `ow` and
/// height `oh`) that fits is copied over the grid at offset `(xo, yo)`.
pub open spec fn combine_cells(
    cells: Seq<Cell>,
    w: int,
    h: int,
    other: Seq<Cell>,
    ow: int,
    oh: int,
    xo: int,
    yo: int,
) -> Seq<Cell> {
    let (mx, my) = overlap(ow, oh, w, h, xo, yo);
    Seq::new(
        cells.len(),
        |k: int|
            if xo <= k % w < xo + mx && yo <= k / w < yo + my {
                other[index_of(ow, k % w - xo, k / w - yo)]
            } else {
                cells[k]
            },
    )
}

/// The cells with every foreground color replaced by `color`.
pub open spec fn fg_cells(cells: Seq<Cell>, color: Color) -> Seq<Cell> {
    Seq::new(
        cells.len(),
        |k: int| Cell { ch: cells[k].ch, attrs: cells[k].attrs, fg: color, bg: cells[k].bg },
    )
}

/// The cells with every background color replaced by `color`.
pub open spec fn bg_cells(cells: Seq<Cell>, color: Color) -> Seq<Cell> {
    Seq::new(
        cells.len(),
        |k: int| Cell { ch: cells[k].ch, attrs: cells[k].attrs, fg: cells[k].fg, bg: color },
    )
}

impl Framebuffer {
    /// Write a string and its attributes to the buffer.
    ///
    /// * `x`: The x-coordinate of the cell to modify.
    /// * `y`: The y-coordinate of the cell to modify.
    /// * `str`: The string to display in the cell.
    /// * `attrs`: The attributes of the cell.
    /// * `fg`: The foreground color of the cell.
    /// * `bg`: The background color of the cell.
    /// * `align`: The alignment of the text.
    #[allow(clippy::too_many_arguments)]
    pub fn set_str(
        &mut self,
        x: usize,
        y: usize,
        str: &str,
        attrs: Attr,
        fg: Color,
        bg: Color,
        align: Align,
    )
        requires
            old(self).wf(),
            str_start(x as int, str@.len() as int, align) + str@.len() <= usize::MAX + 1,
        ensures
            final(self).wf(),
            final(self).width == old(self).width,
            final(self).height == old(self).height,
            final(self).cells() == str_cells(
                old(self).cells(),
                old(self).width as int,
                y as int,
                str_start(x as int, str@.len() as int, align),
                str@,
                attrs,
                fg,
                bg,
            ),
    {
        let str_len = str.unicode_len();
        let start_x = match align {
            Align::Left => x,
            Align::Center => x.saturating_sub(str_len / 2),
            Align::Right => x.saturating_sub(str_len),
        };
        let ghost old_cells = self.cells();
        let ghost w = self.width as int;
        let ghost h = self.height as int;
        let mut i: usize = 0;
        while i < str_len
            invariant
                i <= str_len,
                str_len == str@.len(),
                start_x == str_start(x as int, str@.len() as int, align),
                start_x + str_len <= usize::MAX + 1,
                self.wf(),
                self.width == w,
                self.height == h,
                old_cells.len() == w * h,
                self.cells() == str_cells(
                    old_cells,
                    w,
                    y as int,
                    start_x as int,
                    str@.take(i as int),
                    attrs,
                    fg,
                    bg,
                ),
            decreases str_len - i,
        {
            let ch = str.get_char(i);
            let px = start_x + i;
            let ghost before = self.cells();
            if px < self.width {
                self.set_char(px, y, ch, attrs, fg, bg);
            }
            proof {
                let next = str_cells(
                    old_cells,
                    w,
                    y as int,
                    start_x as int,
                    str@.take(i + 1),
                    attrs,
                    fg,
                    bg,
                );
                assert forall|k: int| 0 <= k < self.cells().len() implies self.cells()[k]
                    == next[k] by {
                    lemma_position(w, h, k);
                    if px < w && y < h {
                        lemma_coords(w, px as int, y as int);
                        lemma_index_bound(w, h, px as int, y as int);
                    }
                }
                assert(self.cells() =~= next);
            }
            i = i + 1;
        }
        proof {
            assert(str@.take(str_len as int) =~= str@);
        }
    }
}

/// The title shown when it is too long for the border: its first `w - 9`
/// characters between a space and " ...".
pub open spec fn shortened_title(title: Seq<char>, w: int) -> Seq<char> {
    seq![' '] + title.take(w - 9) + " ..."@
}

/// The title between two spaces.
pub open spec fn padded_title(title: Seq<char>) -> Seq<char> {
    seq![' '] + title + seq![' ']
}

/// The cells after a border with `title` in its top row is drawn on a `w` by `h` grid.
pub open spec fn named_border_cells(
    cells: Seq<Cell>,
    w: int,
    h: int,
    title: Seq<char>,
    align: Align,
    attrs: Attr,
    fg: Color,
    bg: Color,
) -> Seq<Cell> {
    let framed = border_cells(cells, w, h, attrs, fg, bg);
    if title.len() > w - 6 {
        str_cells(framed, w, 0, 2, shortened_title(title, w), attrs, fg, bg)
    } else {
        let t = padded_title(title);
        let start = match align {
            Align::Left => 2,
            Align::Center => str_start(w / 2, t.len() as int, Align::Center),
            Align::Right => str_start(w - 2, t.len() as int, Align::Right),
        };
        str_cells(framed, w, 0, start, t, attrs, fg, bg)
    }
}

impl Framebuffer {
    /// Draw the border around the buffer.
    ///
    /// * `attrs`: The attributes of the border.
    /// * `fg`: The foreground color of the border.
    /// * `bg`: The background color of the border.
    pub fn set_border(&mut self, attrs: Attr, fg: Color, bg: Color)
        requires
            old(self).wf(),
            old(self).width >= 1,
            old(self).height >= 1,
        ensures
            final(self).wf(),
            final(self).width == old(self).width,
            final(self).height == old(self).height,
            final(self).cells() == border_cells(
                old(self).cells(),
                old(self).width as int,
                old(self).height as int,
                attrs,
                fg,
                bg,
            ),
    {
        let w = self.width;
        let h = self.height;
        let ghost old_cells = self.cells();
        let ghost wi = w as int;
        let ghost hi = h as int;
        let hc = Cell { ch: '\u{2500}', attrs, fg, bg };
        let vc = Cell { ch: '\u{2502}', attrs, fg, bg };

        // Draw the top and bottom borders
        let mut x: usize = 1;
        while x < w - 1
            invariant
                1 <= x <= if w >= 2 { w - 1 } else { 1 },
                self.wf(),
                self.width == w,
                self.height == h,
                w >= 1,
                h >= 1,
                wi == w as int,
                hi == h as int,
                old_cells.len() == wi * hi,
                hc == (Cell { ch: '\u{2500}', attrs, fg, bg }),
                self.cells() == Seq::new(
                    old_cells.len(),
                    |k: int|
                        if (k / wi == 0 || k / wi == hi - 1) && 1 <= k % wi < x {
                            hc
                        } else {
                            old_cells[k]
                        },
                ),
            decreases w - x,
        {
            let ghost c0 = self.cells();
            self.set_char(x, 0, '\u{2500}', attrs, fg, bg);
            let ghost c1 = self.cells();
            self.set_char(x, h - 1, '\u{2500}', attrs, fg, bg);
            proof {
                assert forall|k: int| 0 <= k < self.cells().len() implies self.cells()[k] == (
                if (k / wi == 0 || k / wi == hi - 1) && 1 <= k % wi < x + 1 {
                    hc
                } else {
                    old_cells[k]
                }) by {
                    lemma_put_at(c0, wi, hi, x as int, 0, hc, k);
                    lemma_put_at(c1, wi, hi, x as int, hi - 1, hc, k);
                }
                assert(self.cells() =~= Seq::new(
                    old_cells.len(),
                    |k: int|
                        if (k / wi == 0 || k / wi == hi - 1) && 1 <= k % wi < x + 1 {
                            hc
                        } else {
                            old_cells[k]
                        },
                ));
            }
            x = x + 1;
        }

        // Draw the left and right borders
        let mut y: usize = 1;
        while y < h - 1
            invariant
                1 <= y <= if h >= 2 { h - 1 } else { 1 },
                self.wf(),
                self.width == w,
                self.height == h,
                w >= 1,
                h >= 1,
                wi == w as int,
                hi == h as int,
                old_cells.len() == wi * hi,
                hc == (Cell { ch: '\u{2500}', attrs, fg, bg }),
                vc == (Cell { ch: '\u{2502}', attrs, fg, bg }),
                self.cells() == Seq::new(
                    old_cells.len(),
                    |k: int|
                        if (k / wi == 0 || k / wi == hi - 1) && 1 <= k % wi < wi - 1 {
                            hc
                        } else if (k % wi == 0 || k % wi == wi - 1) && 1 <= k / wi < y {
                            vc
                        } else {
                            old_cells[k]
                        },
                ),
            decreases h - y,
        {
            let ghost c0 = self.cells();
            self.set_char(0, y, '\u{2502}', attrs, fg, bg);
            let ghost c1 = self.cells();
            self.set_char(w - 1, y, '\u{2502}', attrs, fg, bg);
            proof {
                assert forall|k: int| 0 <= k < self.cells().len() implies self.cells()[k] == (
                if (k / wi == 0 || k / wi == hi - 1) && 1 <= k % wi < wi - 1 {
                    hc
                } else if (k % wi == 0 || k % wi == wi - 1) && 1 <= k / wi < y + 1 {
                    vc
                } else {
                    old_cells[k]
                }) by {
                    lemma_put_at(c0, wi, hi, 0, y as int, vc, k);
                    lemma_put_at(c1, wi, hi, wi - 1, y as int, vc, k);
                }
                assert(self.cells() =~= Seq::new(
                    old_cells.len(),
                    |k: int|
                        if (k / wi == 0 || k / wi == hi - 1) && 1 <= k % wi < wi - 1 {
                            hc
                        } else if (k % wi == 0 || k % wi == wi - 1) && 1 <= k / wi < y + 1 {
                            vc
                        } else {
                            old_cells[k]
                        },
                ));
            }
            y = y + 1;
        }

        // Draw the corners
        let ghost c0 = self.cells();
        self.set_char(0, 0, '\u{256D}', attrs, fg, bg);
        let ghost c1 = self.cells();
        self.set_char(w - 1, 0, '\u{256E}', attrs, fg, bg);
        let ghost c2 = self.cells();
        self.set_char(0, h - 1, '\u{2570}', attrs, fg, bg);
        let ghost c3 = self.cells();
        self.set_char(w - 1, h - 1, '\u{256F}', attrs, fg, bg);
        proof {
            let target = border_cells(old_cells, wi, hi, attrs, fg, bg);
            assert forall|k: int| 0 <= k < self.cells().len() implies self.cells()[k]
                == target[k] by {
                lemma_put_at(c0, wi, hi, 0, 0, Cell { ch: '\u{256D}', attrs, fg, bg }, k);
                lemma_put_at(c1, wi, hi, wi - 1, 0, Cell { ch: '\u{256E}', attrs, fg, bg }, k);
                lemma_put_at(c2, wi, hi, 0, hi - 1, Cell { ch: '\u{2570}', attrs, fg, bg }, k);
                lemma_put_at(
                    c3,
                    wi,
                    hi,
                    wi - 1,
                    hi - 1,
                    Cell { ch: '\u{256F}', attrs, fg, bg },
                    k,
                );
            }
            assert(self.cells() =~= target);
        }
    }

    /// Draw a vertical line in the buffer.
    ///
    /// * `x`: The x-coordinate of the line.
    /// * `y_start`: The starting y-coordinate of the line.
    /// * `y_end`: The ending y-coordinate of the line.
    /// * `attrs`: The attributes of the line.
    /// * `fg`: The foreground color of the line.
    /// * `bg`: The background color of the line.
    pub fn set_vline(
        &mut self,
        x: usize,
        y_start: usize,
        y_end: usize,
        attrs: Attr,
        fg: Color,
        bg: Color,
    )
        requires
            old(self).wf(),
        ensures
            final(self).wf(),
            final(self).width == old(self).width,
            final(self).height == old(self).height,
            final(self).cells() == vline_cells(
                old(self).cells(),
                old(self).width as int,
                x as int,
                y_start as int,
                y_end as int,
                Cell { ch: '\u{2502}', attrs, fg, bg },
            ),
    {
        let ghost old_cells = self.cells();
        let ghost wi = self.width as int;
        let ghost hi = self.height as int;
        let cell = Cell { ch: '\u{2502}', attrs, fg, bg };
        // Rows from the height on hold no cells, so the line stops there.
        let end = if y_end < self.height { y_end + 1 } else { self.height };
        let mut y = y_start;
        while y < end
            invariant
                y_start <= y,
                y < end ==> y <= y_end,
                y == y_start || y <= end,
                end <= hi,
                end == (if y_end < hi { y_end + 1 } else { hi }),
                cell == (Cell { ch: '\u{2502}', attrs, fg, bg }),
                self.wf(),
                self.width == wi,
                self.height == hi,
                old_cells.len() == wi * hi,
                self.cells() == vline_cells(old_cells, wi, x as int, y_start as int, y - 1, cell),
            decreases end - y,
        {
            let ghost c0 = self.cells();
            self.set_char(x, y, '\u{2502}', attrs, fg, bg);
            proof {
                let next = vline_cells(old_cells, wi, x as int, y_start as int, y as int, cell);
                assert forall|k: int| 0 <= k < self.cells().len() implies self.cells()[k]
                    == next[k] by {
                    lemma_put_at(c0, wi, hi, x as int, y as int, cell, k);
                }
                assert(self.cells() =~= next);
            }
            y = y + 1;
        }
        proof {
            let target = vline_cells(old_cells, wi, x as int, y_start as int, y_end as int, cell);
            assert forall|k: int| 0 <= k < self.cells().len() implies self.cells()[k]
                == target[k] by {
                lemma_put_at(old_cells, wi, hi, 0, 0, cell, k);
            }
            assert(self.cells() =~= target);
        }
    }

    /// Draw a horizontal line in the buffer.
    ///
    /// * `y`: The y-coordinate of the line.
    /// * `x_start`: The starting x-coordinate of the line.
    /// * `x_end`: The ending x-coordinate of the line.
    /// * `attrs`: The attributes of the line.
    /// * `fg`: The foreground color of the line.
    /// * `bg`: The background color of the line.
    pub fn set_hline(
        &mut self,
        y: usize,
        x_start: usize,
        x_end: usize,
        attrs: Attr,
        fg: Color,
        bg: Color,
    )
        requires
            old(self).wf(),
        ensures
            final(self).wf(),
            final(self).width == old(self).width,
            final(self).height == old(self).height,
            final(self).cells() == hline_cells(
                old(self).cells(),
                old(self).width as int,
                y as int,
                x_start as int,
                x_end as int,
                Cell { ch: '\u{2500}', attrs, fg, bg },
            ),
    {
        let ghost old_cells = self.cells();
        let ghost wi = self.width as int;
        let ghost hi = self.height as int;
        let cell = Cell { ch: '\u{2500}', attrs, fg, bg };
        // Columns from the width on hold no cells, so the line stops there.
        let end = if x_end < self.width { x_end + 1 } else { self.width };
        let mut x = x_start;
        while x < end
            invariant
                x_start <= x,
                x < end ==> x <= x_end,
                x == x_start || x <= end,
                end <= wi,
                end == (if x_end < wi { x_end + 1 } else { wi }),
                cell == (Cell { ch: '\u{2500}', attrs, fg, bg }),
                self.wf(),
                self.width == wi,
                self.height == hi,
                old_cells.len() == wi * hi,
                self.cells() == hline_cells(old_cells, wi, y as int, x_start as int, x - 1, cell),
            decreases end - x,
        {
            let ghost c0 = self.cells();
            self.set_char(x, y, '\u{2500}', attrs, fg, bg);
            proof {
                let next = hline_cells(old_cells, wi, y as int, x_start as int, x as int, cell);
                assert forall|k: int| 0 <= k < self.cells().len() implies self.cells()[k]
                    == next[k] by {
                    lemma_put_at(c0, wi, hi, x as int, y as int, cell, k);
                }
                assert(self.cells() =~= next);
            }
            x = x + 1;
        }
        proof {
            let target = hline_cells(old_cells, wi, y as int, x_start as int, x_end as int, cell);
            assert forall|k: int| 0 <= k < self.cells().len() implies self.cells()[k]
                == target[k] by {
                lemma_put_at(old_cells, wi, hi, 0, 0, cell, k);
            }
            assert(self.cells() =~= target);
        }
    }

    /// Set the foreground color for all cells in the buffer.
    ///
    /// * `color`: The color to set.
    pub fn set_fg_color(&mut self, color: Color)
        ensures
            final(self).width == old(self).width,
            final(self).height == old(self).height,
            final(self).cells() == fg_cells(old(self).cells(), color),
    {
        let n = self.buffer.len();
        let mut i: usize = 0;
        while i < n
            invariant
                i <= n,
                n == self.buffer@.len(),
                self.width == old(self).width,
                self.height == old(self).height,
                self.buffer@.len() == old(self).buffer@.len(),
                forall|k: int| 0 <= k < i ==> self.buffer@[k] == fg_cells(old(self).cells(), color)[k],
                forall|k: int| i <= k < n ==> self.buffer@[k] == old(self).buffer@[k],
            decreases n - i,
        {
            let mut cell = self.buffer[i];
            cell.fg = color;
            self.buffer.set(i, cell);
            i = i + 1;
        }
        assert(self.cells() =~= fg_cells(old(self).cells(), color));
    }

    /// Set the background color for all cells in the buffer.
    ///
    /// * `color`: The color to set.
    pub fn set_bg_color(&mut self, color: Color)
        ensures
            final(self).width == old(self).width,
            final(self).height == old(self).height,
            final(self).cells() == bg_cells(old(self).cells(), color),
    {
        let n = self.buffer.len();
        let mut i: usize = 0;
        while i < n
            invariant
                i <= n,
                n == self.buffer@.len(),
                self.width == old(self).width,
                self.height == old(self).height,
                self.buffer@.len() == old(self).buffer@.len(),
                forall|k: int| 0 <= k < i ==> self.buffer@[k] == bg_cells(old(self).cells(), color)[k],
                forall|k: int| i <= k < n ==> self.buffer@[k] == old(self).buffer@[k],
            decreases n - i,
        {
            let mut cell = self.buffer[i];
            cell.bg = color;
            self.buffer.set(i, cell);
            i = i + 1;
        }
        assert(self.cells() =~= bg_cells(old(self).cells(), color));
    }
}

impl Framebuffer {
    /// Combine the contents of the buffer.
    ///
    /// * `other`: The other framebuffer to combine with.
    /// * `x_offset`: The x-coordinate offset to start combining.
    /// * `y_offset`: The y-coordinate offset to start combining.
    pub fn combine(&mut self, other: &Framebuffer, x_offset: usize, y_offset: usize)
        requires
            old(self).wf(),
            other.wf(),
        ensures
            final(self).wf(),
            final(self).width == old(self).width,
            final(self).height == old(self).height,
            final(self).cells() == combine_cells(
                old(self).cells(),
                old(self).width as int,
                old(self).height as int,
                other.cells(),
                other.width as int,
                other.height as int,
                x_offset as int,
                y_offset as int,
            ),
    {
        let ghost old_cells = self.cells();
        let w = self.width;
        let h = self.height;
        let ow = other.width;
        let oh = other.height;
        let ghost wi = w as int;
        let ghost hi = h as int;
        let avail_y = h.saturating_sub(y_offset);
        let avail_x = w.saturating_sub(x_offset);
        let max_y = if oh < avail_y { oh } else { avail_y };
        let max_x = if ow < avail_x { ow } else { avail_x };
        let ghost target = combine_cells(
            old_cells,
            wi,
            hi,
            other.cells(),
            ow as int,
            oh as int,
            x_offset as int,
            y_offset as int,
        );
        if max_x == 0 || max_y == 0 {
            proof {
                assert(self.cells() =~= target);
            }
            return;
        }
        let n_self = self.buffer.len();
        let n_other = other.buffer.len();
        let mut y: usize = 0;
        while y < max_y
            invariant
                y <= max_y,
                0 < max_x <= ow,
                max_y <= oh,
                x_offset + max_x <= w,
                y_offset + max_y <= h,
                (max_x as int, max_y as int) == overlap(
                    ow as int,
                    oh as int,
                    wi,
                    hi,
                    x_offset as int,
                    y_offset as int,
                ),
                self.wf(),
                other.wf(),
                self.width == w,
                self.height == h,
                other.width == ow,
                other.height == oh,
                wi == w as int,
                hi == h as int,
                old_cells.len() == wi * hi,
                old_cells.len() == n_self,
                other.cells().len() == n_other,
                target == combine_cells(
                    old_cells,
                    wi,
                    hi,
                    other.cells(),
                    ow as int,
                    oh as int,
                    x_offset as int,
                    y_offset as int,
                ),
                forall|k: int|
                    0 <= k < old_cells.len() ==> #[trigger] self.cells()[k] == if y_offset <= k
                        / wi < y_offset + y {
                        target[k]
                    } else {
                        old_cells[k]
                    },
            decreases max_y - y,
        {
            proof {
                lemma_index_bound(wi, hi, x_offset as int, (y + y_offset) as int);
                lemma_index_bound(ow as int, oh as int, 0, y as int);
            }
            let dst_start = (y + y_offset) * w + x_offset;
            let src_start = y * ow;
            let mut j: usize = 0;
            while j < max_x
                invariant
                    j <= max_x,
                    y < max_y,
                    0 < max_x <= ow,
                    max_y <= oh,
                    x_offset + max_x <= w,
                    y_offset + max_y <= h,
                    (max_x as int, max_y as int) == overlap(
                        ow as int,
                        oh as int,
                        wi,
                        hi,
                        x_offset as int,
                        y_offset as int,
                    ),
                    dst_start == index_of(wi, x_offset as int, (y + y_offset) as int),
                    src_start == index_of(ow as int, 0, y as int),
                    self.wf(),
                    other.wf(),
                    self.width == w,
                    self.height == h,
                    other.width == ow,
                    other.height == oh,
                    wi == w as int,
                    hi == h as int,
                    old_cells.len() == wi * hi,
                    old_cells.len() == n_self,
                    other.cells().len() == n_other,
                    target == combine_cells(
                        old_cells,
                        wi,
                        hi,
                        other.cells(),
                        ow as int,
                        oh as int,
                        x_offset as int,
                        y_offset as int,
                    ),
                    forall|k: int|
                        0 <= k < old_cells.len() ==> #[trigger] self.cells()[k] == if (y_offset
                            <= k / wi < y_offset + y) || (k / wi == y_offset + y && x_offset <= k
                            % wi < x_offset + j) {
                            target[k]
                        } else {
                            old_cells[k]
                        },
                decreases max_x - j,
            {
                proof {
                    lemma_index_bound(wi, hi, (x_offset + j) as int, (y + y_offset) as int);
                    lemma_coords(wi, (x_offset + j) as int, (y + y_offset) as int);
                    lemma_index_bound(ow as int, oh as int, j as int, y as int);
                }
                let c = other.buffer[src_start + j];
                let ghost before = self.cells();
                self.buffer.set(dst_start + j, c);
                proof {
                    assert forall|k: int| 0 <= k < old_cells.len() implies #[trigger] self.cells()[k]
                        == if (y_offset <= k / wi < y_offset + y) || (k / wi == y_offset + y
                        && x_offset <= k % wi < x_offset + j + 1) {
                        target[k]
                    } else {
                        old_cells[k]
                    } by {
                        lemma_position(wi, hi, k);
                    }
                }
                j = j + 1;
            }
            y = y + 1;
        }
        proof {
            assert forall|k: int| 0 <= k < old_cells.len() implies #[trigger] self.cells()[k]
                == target[k] by {
                lemma_position(wi, hi, k);
            }
            assert(self.cells() =~= target);
        }
    }
}

impl Framebuffer {
    /// Set a named border around the buffer.
    ///
    /// * `title`: The name to display in the border.
    /// * `align`: The alignment of the name.
    /// * `attrs`: The attributes of the border.
    /// * `fg`: The foreground color of the border.
    /// * `bg`: The background color of the border.
    pub fn set_named_border(&mut self, title: &str, align: Align, attrs: Attr, fg: Color, bg: Color)
        requires
            old(self).wf(),
            old(self).width >= 6,
            old(self).height >= 1,
            title@.len() > old(self).width - 6 ==> old(self).width >= 9,
        ensures
            final(self).wf(),
            final(self).width == old(self).width,
            final(self).height == old(self).height,
            final(self).cells() == named_border_cells(
                old(self).cells(),
                old(self).width as int,
                old(self).height as int,
                title@,
                align,
                attrs,
                fg,
                bg,
            ),
    {
        self.set_border(attrs, fg, bg);
        let w = self.width;
        let n = title.unicode_len();
        if n > w - 6 {
            let head = title.substring_char(0, w - 9);
            let mut truncated_title = String::new();
            push_char(&mut truncated_title, ' ');
            push_str(&mut truncated_title, head);
            push_str(&mut truncated_title, " ...");
            proof {
                reveal_strlit(" ...");
                assert(truncated_title@ =~= shortened_title(title@, w as int));
            }
            self.set_str(2, 0, truncated_title.as_str(), attrs, fg, bg, Align::Left);
            return;
        }
        let mut spaced_title = String::new();
        push_char(&mut spaced_title, ' ');
        push_str(&mut spaced_title, title);
        push_char(&mut spaced_title, ' ');
        assert(spaced_title@ =~= padded_title(title@));
        match align {
            Align::Left => self.set_str(2, 0, spaced_title.as_str(), attrs, fg, bg, Align::Left),
            Align::Center => self.set_str(
                w / 2,
                0,
                spaced_title.as_str(),
                attrs,
                fg,
                bg,
                Align::Center,
            ),
            Align::Right => self.set_str(
                w.saturating_sub(2),
                0,
                spaced_title.as_str(),
                attrs,
                fg,
                bg,
                Align::Right,
            ),
        }
    }
}

/// What the renderer remembers while it writes the changed cells of a frame:
/// the attributes and colors it last selected, and whether it has written anything yet.
#[derive(Clone, Copy, PartialEq, Eq, Debug, Structural)]
pub struct Pen {
    pub attrs: Attr,
    pub fg: Color,
    pub bg: Color,
    pub started: bool,
}

/// The pen at the start of a frame: normal attributes, no colors, nothing written.
pub open spec fn initial_pen() -> Pen {
    Pen { attrs: Attr { bits: 1 }, fg: Color::NoColor, bg: Color::NoColor, started: false }
}

/// The escape sequence that moves the cursor to column `x`, row `y`
/// (both counted from 0; the terminal counts from 1).
pub open spec fn cursor_to(x: int, y: int) -> Seq<char> {
    "\x1B["@ + dec((y + 1) as nat) + ";"@ + dec((x + 1) as nat) + "H"@
}

/// The text that redraws cell `(x, y)` with the contents `c`, and the pen afterwards:
/// a reset before the first change of the frame, the cursor move, the attributes
/// and colors that differ from the pen's, and the character.
pub open spec fn cell_update(pen: Pen, c: Cell, x: int, y: int) -> (Seq<char>, Pen) {
    let reset = if pen.started { Seq::<char>::empty() } else { "\x1B[0m"@ };
    let a = if pen.attrs != c.attrs { attr_ansi(c.attrs.bits) } else { Seq::<char>::empty() };
    let f = if pen.fg != c.fg { color_ansi(c.fg, true) } else { Seq::<char>::empty() };
    let b = if pen.bg != c.bg { color_ansi(c.bg, false) } else { Seq::<char>::empty() };
    (
        reset + cursor_to(x, y) + a + f + b + seq![c.ch],
        Pen { attrs: c.attrs, fg: c.fg, bg: c.bg, started: true },
    )
}

/// The text written for the first `n` cells (row-major) of a frame that
/// turns `front` into `back`, on a grid of width `w`, and the pen afterwards.
/// Only the cells that differ are written.
pub open spec fn diff_prefix(front: Seq<Cell>, back: Seq<Cell>, w: int, n: int) -> (
    Seq<char>,
    Pen,
)
    decreases n,
{
    if n <= 0 {
        (Seq::empty(), initial_pen())
    } else {
        let (out, pen) = diff_prefix(front, back, w, n - 1);
        let k = n - 1;
        if front[k] != back[k] {
            let (t, p) = cell_update(pen, back[k], k % w, k / w);
            (out + t, p)
        } else {
            (out, pen)
        }
    }
}

/// The text written to turn the displayed `front` cells into the `back` cells.
pub open spec fn diff_text(front: Seq<Cell>, back: Seq<Cell>, w: int) -> Seq<char> {
    diff_prefix(front, back, w, front.len() as int).0
}

/// Appends to `chunk` the text that redraws cell `(x, y)` with the contents `c`,
/// and updates the pen.
fn emit_cell(chunk: &mut String, pen: &mut Pen, c: Cell, x: usize, y: usize)
    requires
        x < usize::MAX,
        y < usize::MAX,
    ensures
        final(chunk)@ == old(chunk)@ + cell_update(*old(pen), c, x as int, y as int).0,
        *final(pen) == cell_update(*old(pen), c, x as int, y as int).1,
{
    let ghost start = chunk@;
    let ghost p0 = *pen;
    let ghost reset = if p0.started { Seq::<char>::empty() } else { "\x1B[0m"@ };
    let ghost sa = if p0.attrs != c.attrs { attr_ansi(c.attrs.bits) } else { Seq::<char>::empty() };
    let ghost sf = if p0.fg != c.fg { color_ansi(c.fg, true) } else { Seq::<char>::empty() };
    let ghost sb = if p0.bg != c.bg { color_ansi(c.bg, false) } else { Seq::<char>::empty() };
    if !pen.started {
        push_str(chunk, "\x1B[0m");
        pen.started = true;
    }
    assert(chunk@ =~= start + reset);
    let ghost s1 = chunk@;
    push_cursor_move(chunk, x, y);
    let ghost s2 = chunk@;
    if pen.attrs != c.attrs {
        pen.attrs = c.attrs;
        let s = c.attrs.to_ansi();
        push_str(chunk, s.as_str());
    }
    assert(chunk@ =~= s2 + sa);
    let ghost s3 = chunk@;
    if pen.fg != c.fg {
        pen.fg = c.fg;
        let s = c.fg.to_ansi(true);
        push_str(chunk, s.as_str());
    }
    assert(chunk@ =~= s3 + sf);
    let ghost s4 = chunk@;
    if pen.bg != c.bg {
        pen.bg = c.bg;
        let s = c.bg.to_ansi(false);
        push_str(chunk, s.as_str());
    }
    assert(chunk@ =~= s4 + sb);
    push_char(chunk, c.ch);
    proof {
        let cm = cursor_to(x as int, y as int);
        assert(chunk@ =~= start + (reset + cm + sa + sf + sb + seq![c.ch]));
    }
}

/// Appends the escape sequence that moves the cursor to `(x, y)`.
fn push_cursor_move(chunk: &mut String, x: usize, y: usize)
    requires
        x < usize::MAX,
        y < usize::MAX,
    ensures
        final(chunk)@ == old(chunk)@ + cursor_to(x as int, y as int),
{
    let ghost start = chunk@;
    push_str(chunk, "\x1B[");
    push_decimal(chunk, (y + 1) as u64);
    push_char(chunk, ';');
    push_decimal(chunk, (x + 1) as u64);
    push_char(chunk, 'H');
    proof {
        reveal_strlit(";");
        reveal_strlit("H");
        assert(chunk@ =~= start + cursor_to(x as int, y as int));
    }
}

/// Why a frame cannot be drawn.
#[derive(Debug, Clone, Copy, PartialEq, Eq)]
pub enum RefreshError {
    /// The two framebuffers differ in width or height.
    SizeMismatch,
}

impl Framebuffer {
    /// Compare the back buffer and front buffer, produce the text that draws the
    /// differences, and update the front buffer with the contents of the back buffer.
    ///
    /// * `back_fb`: The back buffer to compare against.
    ///
    /// Returns the escape sequences and characters to write to the terminal, or an
    /// error if the framebuffers differ in size.
    pub fn refresh_diff(&mut self, back_fb: &Framebuffer) -> (r: Result<String, RefreshError>)
        requires
            old(self).wf(),
            back_fb.wf(),
        ensures
            final(self).wf(),
            final(self).width == old(self).width,
            final(self).height == old(self).height,
            match r {
                Ok(text) => {
                    &&& old(self).width == back_fb.width
                    &&& old(self).height == back_fb.height
                    &&& text@ == diff_text(old(self).cells(), back_fb.cells(), old(self).width as int)
                    &&& final(self).cells() == back_fb.cells()
                },
                Err(e) => {
                    &&& e == RefreshError::SizeMismatch
                    &&& (old(self).width != back_fb.width || old(self).height != back_fb.height)
                    &&& final(self).cells() == old(self).cells()
                },
            },
    {
        if self.height != back_fb.height || self.width != back_fb.width {
            return Err(RefreshError::SizeMismatch);
        }
        let w = self.width;
        let h = self.height;
        let ghost wi = w as int;
        let ghost hi = h as int;
        let ghost old_cells = self.cells();
        let ghost back_cells = back_fb.cells();
        let n_cells = self.buffer.len();

        let mut pen = Pen {
            attrs: Attr::NORMAL(),
            fg: Color::default(),
            bg: Color::default(),
            started: false,
        };
        let mut chunk = String::new();

        let mut y: usize = 0;
        while y < h
            invariant
                y <= h,
                self.wf(),
                back_fb.wf(),
                self.width == w,
                self.height == h,
                back_fb.width == w,
                back_fb.height == h,
                wi == w as int,
                hi == h as int,
                old_cells.len() == wi * hi,
                old_cells.len() == n_cells,
                back_cells == back_fb.cells(),
                chunk@ == diff_prefix(old_cells, back_cells, wi, y * wi).0,
                pen == diff_prefix(old_cells, back_cells, wi, y * wi).1,
                forall|j: int|
                    0 <= j < old_cells.len() ==> #[trigger] self.cells()[j] == if j < y * wi {
                        back_cells[j]
                    } else {
                        old_cells[j]
                    },
            decreases h - y,
        {
            let mut x: usize = 0;
            while x < w
                invariant
                    x <= w,
                    y < h,
                    self.wf(),
                    back_fb.wf(),
                    self.width == w,
                    self.height == h,
                    back_fb.width == w,
                    back_fb.height == h,
                    wi == w as int,
                    hi == h as int,
                    old_cells.len() == wi * hi,
                    old_cells.len() == n_cells,
                    back_cells == back_fb.cells(),
                    chunk@ == diff_prefix(old_cells, back_cells, wi, y * wi + x).0,
                    pen == diff_prefix(old_cells, back_cells, wi, y * wi + x).1,
                    forall|j: int|
                        0 <= j < old_cells.len() ==> #[trigger] self.cells()[j] == if j < y * wi
                            + x {
                            back_cells[j]
                        } else {
                            old_cells[j]
                        },
                decreases w - x,
            {
                proof {
                    lemma_index_bound(wi, hi, x as int, y as int);
                    lemma_coords(wi, x as int, y as int);
                }
                let idx = y * w + x;
                let back = back_fb.buffer[idx];
                if self.buffer[idx] != back {
                    emit_cell(&mut chunk, &mut pen, back, x, y);
                    self.buffer.set(idx, back);
                }
                x = x + 1;
            }
            proof {
                assert((y + 1) * wi == y * wi + wi) by (nonlinear_arith);
            }
            y = y + 1;
        }
        proof {
            assert(h * wi == old_cells.len()) by (nonlinear_arith)
                requires
                    old_cells.len() == wi * hi,
                    hi == h,
            ;
            assert(self.cells() =~= back_cells);
        }
        Ok(chunk)
    }
}

/// Drawing a frame whose cells all equal the displayed ones writes nothing
/// (for the first `n` cells, and the pen stays as it was).
pub proof fn lemma_diff_prefix_unchanged(cells: Seq<Cell>, w: int, n: int)
    requires
        n <= cells.len(),
    ensures
        diff_prefix(cells, cells, w, n) == (Seq::<char>::empty(), initial_pen()),
    decreases n,
{
    if n > 0 {
        lemma_diff_prefix_unchanged(cells, w, n - 1);
    }
}

/// If one of the first `n` cells differs, drawing them writes something.
pub proof fn lemma_diff_prefix_changed(front: Seq<Cell>, back: Seq<Cell>, w: int, n: int, k: int)
    requires
        0 <= k < n <= front.len(),
        front.len() == back.len(),
        front[k] != back[k],
    ensures
        diff_prefix(front, back, w, n).0.len() > 0,
    decreases n,
{
    let (out, pen) = diff_prefix(front, back, w, n - 1);
    if front[n - 1] != back[n - 1] {
        let (t, p) = cell_update(pen, back[n - 1], (n - 1) % w, (n - 1) / w);
        assert(t.len() > 0);
    } else {
        lemma_diff_prefix_changed(front, back, w, n - 1, k);
    }
}

/// Differential rendering writes nothing exactly when the displayed cells
/// already equal the cells to show: only changed cells are redrawn.
pub proof fn lemma_diff_empty_iff_same(front: Seq<Cell>, back: Seq<Cell>, w: int)
    requires
        front.len() == back.len(),
    ensures
        (diff_text(front, back, w).len() == 0) <==> (front == back),
{
    if front == back {
        lemma_diff_prefix_unchanged(front, w, front.len() as int);
    } else {
        assert(!(front =~= back));
        let k = choose|k: int| 0 <= k < front.len() && front[k] != back[k];
        lemma_diff_prefix_changed(front, back, w, front.len() as int, k);
    }
}

/// After one refresh the front buffer equals the back buffer, so a second
/// refresh with the same back buffer writes nothing.
pub proof fn lemma_refresh_twice(cells: Seq<Cell>, w: int)
    ensures
        diff_text(cells, cells, w) == Seq::<char>::empty(),
{
    lemma_diff_prefix_unchanged(cells, w, cells.len() as int);
}

/// Combining a framebuffer placed entirely outside the grid changes nothing.
pub proof fn lemma_combine_outside(
    cells: Seq<Cell>,
    w: int,
    h: int,
    other: Seq<Cell>,
    ow: int,
    oh: int,
    xo: int,
    yo: int,
)
    requires
        xo >= w || yo >= h,
    ensures
        combine_cells(cells, w, h, other, ow, oh, xo, yo) == cells,
{
    assert(combine_cells(cells, w, h, other, ow, oh, xo, yo) =~= cells);
}

/// The last cell before position `n` whose displayed contents differ from
/// the contents to show, if any.
pub open spec fn last_changed_before(front: Seq<Cell>, back: Seq<Cell>, n: int) -> Option<int>
    decreases n,
{
    if n <= 0 {
        None
    } else if front[n - 1] != back[n - 1] {
        Some(n - 1)
    } else {
        last_changed_before(front, back, n - 1)
    }
}

/// The renderer's pen after the first `n` cells is set by the last redrawn cell
/// among them: its attributes and colors are that cell's, and it has started.
/// Before any cell is redrawn it holds normal attributes and no colors.
pub proof fn lemma_pen_follows_last_redrawn(front: Seq<Cell>, back: Seq<Cell>, w: int, n: int)
    requires
        0 <= n <= front.len(),
        front.len() == back.len(),
    ensures
        diff_prefix(front, back, w, n).1 == match last_changed_before(front, back, n) {
            Some(k) => Pen { attrs: back[k].attrs, fg: back[k].fg, bg: back[k].bg, started: true },
            None => Pen {
                attrs: Attr { bits: 1 },
                fg: Color::NoColor,
                bg: Color::NoColor,
                started: false,
            },
        },
    decreases n,
{
    if n > 0 {
        lemma_pen_follows_last_redrawn(front, back, w, n - 1);
    }
}

/// Differential rendering, cell by cell: an unchanged cell adds nothing; a changed
/// cell `k` at column `x`, row `y` adds a reset (before the first redrawn cell of the
/// frame only), the cursor move to `(x + 1, y + 1)` in terminal coordinates, the
/// escape sequence of its attributes, foreground and background wherever they
/// differ from those of the cell redrawn before it (normal attributes and no colors
/// before the first), and its character. So each redrawn character is written with
/// its own cell's attributes and colors in effect.
pub proof fn lemma_redraw_of_each_cell(front: Seq<Cell>, back: Seq<Cell>, w: int, n: int)
    requires
        1 <= n <= front.len(),
        front.len() == back.len(),
    ensures
        ({
            let k = n - 1;
            let c = back[k];
            let x = k % w;
            let y = k / w;
            let (prev_attrs, prev_fg, prev_bg, started) = match last_changed_before(front, back, k) {
                Some(j) => (back[j].attrs, back[j].fg, back[j].bg, true),
                None => (Attr { bits: 1 }, Color::NoColor, Color::NoColor, false),
            };
            diff_prefix(front, back, w, n).0 == diff_prefix(front, back, w, k).0 + if front[k]
                == back[k] {
                Seq::<char>::empty()
            } else {
                (if started {
                    Seq::<char>::empty()
                } else {
                    "\x1B[0m"@
                }) + "\x1B["@ + dec((y + 1) as nat) + ";"@ + dec((x + 1) as nat) + "H"@ + (
                if prev_attrs != c.attrs {
                    attr_ansi(c.attrs.bits)
                } else {
                    Seq::<char>::empty()
                }) + (if prev_fg != c.fg {
                    color_ansi(c.fg, true)
                } else {
                    Seq::<char>::empty()
                }) + (if prev_bg != c.bg {
                    color_ansi(c.bg, false)
                } else {
                    Seq::<char>::empty()
                }) + seq![c.ch]
            }
        }),
{
    lemma_pen_follows_last_redrawn(front, back, w, n - 1);
}

/// Where the title of a named border lands in the top row. A title of at most
/// `w - 6` characters is drawn whole, between two spaces: from column 2 (left),
/// centered on column `w / 2`, or ending at column `w - 3` (right). A longer title
/// is cut to its first `w - 9` characters and drawn from column 2 as
/// `" " + head + " ..."`. Every character of the title text takes the border's
/// attributes and colors.
pub proof fn lemma_named_border_title(
    cells: Seq<Cell>,
    w: int,
    h: int,
    title: Seq<char>,
    align: Align,
    attrs: Attr,
    fg: Color,
    bg: Color,
)
    requires
        w >= 6,
        h >= 1,
        cells.len() == w * h,
        title.len() > w - 6 ==> w >= 9,
    ensures
        ({
            let r = named_border_cells(cells, w, h, title, align, attrs, fg, bg);
            let n = title.len() as int;
            &&& title.len() <= w - 6 ==> {
                let start = match align {
                    Align::Left => 2,
                    Align::Center => w / 2 - (n + 2) / 2,
                    Align::Right => w - 2 - (n + 2),
                };
                &&& r[start] == Cell { ch: ' ', attrs, fg, bg }
                &&& forall|j: int|
                    0 <= j < n ==> #[trigger] r[start + 1 + j] == Cell { ch: title[j], attrs, fg, bg }
                &&& r[start + 1 + n] == Cell { ch: ' ', attrs, fg, bg }
            }
            &&& title.len() > w - 6 ==> {
                &&& r[2] == Cell { ch: ' ', attrs, fg, bg }
                &&& forall|j: int|
                    0 <= j < w - 9 ==> #[trigger] r[3 + j] == Cell { ch: title[j], attrs, fg, bg }
                &&& r[w - 6] == Cell { ch: ' ', attrs, fg, bg }
                &&& r[w - 5] == Cell { ch: '.', attrs, fg, bg }
                &&& r[w - 4] == Cell { ch: '.', attrs, fg, bg }
                &&& r[w - 3] == Cell { ch: '.', attrs, fg, bg }
            }
        }),
{
    let framed = border_cells(cells, w, h, attrs, fg, bg);
    let n = title.len() as int;
    assert(w <= w * h) by (nonlinear_arith)
        requires
            w >= 6,
            h >= 1,
    ;
    assert forall|x: int| 0 <= x < w implies #[trigger] (x % w) == x && x / w == 0 by {
        lemma_coords(w, x, 0);
    }
    if title.len() <= w - 6 {
        let t = padded_title(title);
        let start = match align {
            Align::Left => 2,
            Align::Center => w / 2 - (n + 2) / 2,
            Align::Right => w - 2 - (n + 2),
        };
        let r = named_border_cells(cells, w, h, title, align, attrs, fg, bg);
        assert(t.len() == n + 2);
        assert(t[0] == ' ');
        assert(t[n + 1] == ' ');
        assert(start % w == start);
        assert((start + 1 + n) % w == start + 1 + n);
        assert forall|j: int| 0 <= j < n implies #[trigger] r[start + 1 + j] == Cell { ch: title[j], attrs, fg, bg } by {
            assert(t[1 + j] == title[j]);
            assert((start + 1 + j) % w == start + 1 + j);
        }
    } else {
        reveal_strlit(" ...");
        let t = shortened_title(title, w);
        assert(t.len() == w - 4);
        assert(t[0] == ' ');
        assert(t[w - 8] == ' ');
        assert(t[w - 7] == '.');
        assert(t[w - 6] == '.');
        assert(t[w - 5] == '.');
        let r = named_border_cells(cells, w, h, title, align, attrs, fg, bg);
        assert((2int) % w == 2);
        assert((w - 6) % w == w - 6);
        assert((w - 5) % w == w - 5);
        assert((w - 4) % w == w - 4);
        assert((w - 3) % w == w - 3);
        assert forall|j: int| 0 <= j < w - 9 implies #[trigger] r[3 + j] == Cell { ch: title[j], attrs, fg, bg } by {
            assert(t[1 + j] == title[j]);
            assert((3 + j) % w == 3 + j);
        }
    }
}
} // verus!
