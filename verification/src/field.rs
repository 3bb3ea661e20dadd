//! The playing field: a grid of cells that hold settled blocks.

use vstd::prelude::*;

use crate::block::{cells_fit, cells_of, Block, BlockType};

verus! {

pub const FIELD_WIDTH: usize = 10;

pub const FIELD_MARGIN: usize = 4;

pub const FIELD_HEIGHT: usize = 20 + FIELD_MARGIN;

/// The playing field: `FIELD_HEIGHT` rows of `FIELD_WIDTH` cells, each empty
/// or holding the type of the block that settled there.
pub type Field = [[Option<BlockType>; FIELD_WIDTH]; FIELD_HEIGHT];

/// A grid of cells: row `y`, cell `x` at `g[y][x]`.
pub type Grid = Seq<Seq<Option<BlockType>>>;

/// Whether `g` has `FIELD_HEIGHT` rows of `FIELD_WIDTH` cells.
pub open spec fn shaped(g: Grid) -> bool {
    g.len() == FIELD_HEIGHT && forall|y: int| 0 <= y < FIELD_HEIGHT ==> (#[trigger] g[y]).len()
        == FIELD_WIDTH
}

/// The rows of a field as sequences.
pub open spec fn grid_of(f: Field) -> Grid {
    Seq::new(FIELD_HEIGHT as nat, |y: int| f@[y]@)
}

/// Whether no cell of the row is filled.
pub open spec fn row_is_empty(row: Seq<Option<BlockType>>) -> bool {
    forall|x: int| 0 <= x < row.len() ==> (#[trigger] row[x]) is None
}

/// Whether every cell of the row is filled.
pub open spec fn row_is_complete(row: Seq<Option<BlockType>>) -> bool {
    forall|x: int| 0 <= x < row.len() ==> (#[trigger] row[x]) is Some
}

/// Whether `(x, y)` is a cell of the field.
pub open spec fn on_field(x: int, y: int) -> bool {
    0 <= x < FIELD_WIDTH && 0 <= y < FIELD_HEIGHT
}

/// The content of cell `(x, y)` of `g`, or `None` off the field.
pub open spec fn cell_of(g: Grid, x: int, y: int) -> Option<BlockType> {
    if on_field(x, y) {
        g[y][x]
    } else {
        None
    }
}

/// Whether block `b` sticks out of the field or overlaps a filled cell of `g`.
pub open spec fn collides(g: Grid, b: Block) -> bool {
    exists|i: int|
        0 <= i < 4 && {
            let p = #[trigger] cells_of(b)[i];
            !on_field(p.0, p.1) || cell_of(g, p.0, p.1) is Some
        }
}

/// Whether `(x, y)` is one of the first `n` cells of block `b`.
pub open spec fn covers_first(b: Block, n: int, x: int, y: int) -> bool {
    exists|i: int| 0 <= i < n && #[trigger] cells_of(b)[i] == (x, y)
}

/// Whether `(x, y)` is one of the cells of block `b`.
pub open spec fn covers(b: Block, x: int, y: int) -> bool {
    covers_first(b, 4, x, y)
}

/// `g` with each of the first `n` cells of block `b` set to `v`.
pub open spec fn paint_first(g: Grid, b: Block, n: int, v: Option<BlockType>) -> Grid {
    Seq::new(
        g.len(),
        |y: int|
            Seq::new(g[y].len(), |x: int| if covers_first(b, n, x, y) { v } else { g[y][x] }),
    )
}

/// `g` with every cell that block `b` covers set to `v`.
pub open spec fn paint_block(g: Grid, b: Block, v: Option<BlockType>) -> Grid {
    paint_first(g, b, 4, v)
}

/// A row with no cell filled.
pub open spec fn blank_row() -> Seq<Option<BlockType>> {
    Seq::new(FIELD_WIDTH as nat, |x: int| None)
}

/// `g` with rows `1..=y` moved one row down (row 0 stays, row `y` is dropped).
pub open spec fn shift_down(g: Grid, y: int) -> Grid {
    Seq::new(g.len(), |i: int| if 1 <= i <= y { g[i - 1] } else { g[i] })
}

/// The grid and the count of cleared rows after the rows from `y` on are
/// checked top to bottom, `cleared` rows having been cleared before: each
/// complete row is removed by moving the rows above it one down; at the end
/// the top row is emptied.
pub open spec fn clear_from(g: Grid, y: int, cleared: int) -> (Grid, int)
    decreases FIELD_HEIGHT - y,
{
    if y >= FIELD_HEIGHT || y < 0 {
        (g.update(0, blank_row()), cleared)
    } else if row_is_complete(g[y]) {
        clear_from(shift_down(g, y), y + 1, cleared + 1)
    } else {
        clear_from(g, y + 1, cleared)
    }
}

/// A field with no cell filled.
pub fn get_field() -> (r: Field)
    ensures
        shaped(grid_of(r)),
        forall|y: int| 0 <= y < FIELD_HEIGHT ==> row_is_empty(#[trigger] grid_of(r)[y]),
{
    let e: [Option<BlockType>; FIELD_WIDTH] = [None, None, None, None, None, None, None, None, None, None];
    let f = [e, e, e, e, e, e, e, e, e, e, e, e, e, e, e, e, e, e, e, e, e, e, e, e];
    assert(forall|y: int| 0 <= y < FIELD_HEIGHT ==> #[trigger] f@[y] == e);
    f
}

/// The operations of the playing field.
pub trait FieldExt {
    /// The rows of the field.
    spec fn grid(&self) -> Grid;

    /// Whether `(x, y)` is a cell of the field.
    fn is_valid(&self, x: usize, y: usize) -> (r: bool)
        ensures
            r == on_field(x as int, y as int),
    ;

    /// Places the block on the field unless it collides; returns whether it was placed.
    fn set_block(&mut self, block: &Block) -> (r: bool)
        requires
            shaped(old(self).grid()),
            cells_fit(*block),
        ensures
            shaped(final(self).grid()),
            r == !collides(old(self).grid(), *block),
            final(self).grid() == if r {
                paint_block(old(self).grid(), *block, Some(block.block_type))
            } else {
                old(self).grid()
            },
    ;

    /// Empties the cells of the field that the block covers.
    fn remove_block(&mut self, block: &Block)
        requires
            shaped(old(self).grid()),
            cells_fit(*block),
        ensures
            shaped(final(self).grid()),
            final(self).grid() == paint_block(old(self).grid(), *block, None),
    ;

    /// The content of cell `(x, y)`, or `None` off the field.
    fn get_block(&self, x: usize, y: usize) -> (r: Option<BlockType>)
        requires
            shaped(self.grid()),
        ensures
            r == cell_of(self.grid(), x as int, y as int),
    ;

    /// Whether the block sticks out of the field or overlaps a filled cell.
    fn check_collision(&self, block: &Block) -> (r: bool)
        requires
            shaped(self.grid()),
            cells_fit(*block),
        ensures
            r == collides(self.grid(), *block),
    ;

    /// Whether a block has settled in the top row below the margin.
    fn is_gameover(&self) -> (r: bool)
        requires
            shaped(self.grid()),
        ensures
            r == exists|x: int|
                0 <= x < FIELD_WIDTH && (#[trigger] self.grid()[FIELD_MARGIN as int][x]) is Some,
    ;

    /// Whether every cell of row `y` is filled.
    fn check_complete_line(&self, y: usize) -> (r: bool)
        requires
            shaped(self.grid()),
            y < FIELD_HEIGHT,
        ensures
            r == row_is_complete(self.grid()[y as int]),
    ;

    /// Removes the complete rows, moving the rows above them down, and
    /// returns how many were removed.
    fn clear_lines(&mut self) -> (r: u8)
        requires
            shaped(old(self).grid()),
        ensures
            shaped(final(self).grid()),
            (final(self).grid(), r as int) == clear_from(old(self).grid(), 0, 0),
    ;
}

/// Row `y` and column `x` of `p`, when `p` lies on the field.
fn field_index(p: crate::block::Pos) -> (r: Option<(usize, usize)>)
    ensures
        r is Some <==> on_field(p.x as int, p.y as int),
        r matches Some((x, y)) ==> x == p.x && y == p.y,
{
    if p.x >= 0 && p.y >= 0 && (p.x as usize) < FIELD_WIDTH && (p.y as usize) < FIELD_HEIGHT {
        Some((p.x as usize, p.y as usize))
    } else {
        None
    }
}

impl FieldExt for Field {
    open spec fn grid(&self) -> Grid {
        grid_of(*self)
    }

    /// Whether `(x, y)` is a cell of the field.
    fn is_valid(&self, x: usize, y: usize) -> (r: bool) {
        x < FIELD_WIDTH && y < FIELD_HEIGHT
    }

    fn get_block(&self, x: usize, y: usize) -> (r: Option<BlockType>) {
        if self.is_valid(x, y) {
            self[y][x]
        } else {
            None
        }
    }

    fn check_collision(&self, block: &Block) -> (r: bool) {
        let positions = block.get_relative_positions();
        let mut i: usize = 0;
        while i < 4
            invariant
                i <= 4,
                shaped(self.grid()),
                forall|j: int|
                    0 <= j < 4 ==> (#[trigger] positions@[j].x as int, positions@[j].y as int)
                        == cells_of(*block)[j],
                forall|j: int|
                    0 <= j < i ==> {
                        let p = #[trigger] cells_of(*block)[j];
                        on_field(p.0, p.1) && cell_of(self.grid(), p.0, p.1) is None
                    },
            decreases 4 - i,
        {
            let pos = positions[i];
            assert((positions@[i as int].x as int, positions@[i as int].y as int) == cells_of(*block)[i as int]);
            match field_index(pos) {
                None => {
                    return true;
                },
                Some((x, y)) => {
                    if self.get_block(x, y).is_some() {
                        return true;
                    }
                },
            }
            i = i + 1;
        }
        false
    }

    /// Places the block on the field unless it collides; returns whether it was placed.
    fn set_block(&mut self, block: &Block) -> (r: bool) {
        if self.check_collision(block) {
            return false;  // Collision detected, do not set the block
        }
        let ghost g0 = self.grid();
        let positions = block.get_relative_positions();
        assert(g0 =~~= paint_first(g0, *block, 0, Some(block.block_type)));
        let mut i: usize = 0;
        while i < 4
            invariant
                i <= 4,
                shaped(self.grid()),
                !collides(g0, *block),
                forall|j: int|
                    0 <= j < 4 ==> (#[trigger] positions@[j].x as int, positions@[j].y as int)
                        == cells_of(*block)[j],
                shaped(g0),
                self.grid() == paint_first(g0, *block, i as int, Some(block.block_type)),
            decreases 4 - i,
        {
            let pos = positions[i];
            assert((positions@[i as int].x as int, positions@[i as int].y as int) == cells_of(*block)[i as int]);
            let ghost before = self.grid();
            if let Some((x, y)) = field_index(pos) {
                let mut row = self[y];
                row[x] = Some(block.block_type);
                self[y] = row;
                assert(self.grid() =~= before.update(y as int, before[y as int].update(x as int, Some(block.block_type))));
            } else {
                assert(self.grid() == before);
            }
            proof {
                let next = paint_first(g0, *block, i + 1, Some(block.block_type));
                assert forall|yy: int| 0 <= yy < FIELD_HEIGHT implies #[trigger] self.grid()[yy] =~= next[yy] by {
                    assert forall|xx: int| 0 <= xx < FIELD_WIDTH implies self.grid()[yy][xx] == next[yy][xx] by {
                        if cells_of(*block)[i as int] == (xx, yy) {
                            assert(covers_first(*block, i + 1, xx, yy));
                        }
                        if covers_first(*block, i + 1, xx, yy) && !covers_first(*block, i as int, xx, yy) {
                            let j = choose|j: int| 0 <= j < i + 1 && #[trigger] cells_of(*block)[j] == (xx, yy);
                            assert(j == i);
                        }
                        if covers_first(*block, i as int, xx, yy) {
                            let j = choose|j: int| 0 <= j < i && #[trigger] cells_of(*block)[j] == (xx, yy);
                            assert(covers_first(*block, i + 1, xx, yy));
                        }
                    }
                }
                assert(self.grid() =~= next);
            }
            i = i + 1;
        }
        true
    }

    fn remove_block(&mut self, block: &Block) {
        let ghost g0 = self.grid();
        let positions = block.get_relative_positions();
        assert(g0 =~~= paint_first(g0, *block, 0, None));
        let mut i: usize = 0;
        while i < 4
            invariant
                i <= 4,
                shaped(self.grid()),
                forall|j: int|
                    0 <= j < 4 ==> (#[trigger] positions@[j].x as int, positions@[j].y as int)
                        == cells_of(*block)[j],
                shaped(g0),
                self.grid() == paint_first(g0, *block, i as int, None),
            decreases 4 - i,
        {
            let pos = positions[i];
            assert((positions@[i as int].x as int, positions@[i as int].y as int) == cells_of(*block)[i as int]);
            let ghost before = self.grid();
            if let Some((x, y)) = field_index(pos) {
                let mut row = self[y];
                row[x] = None;  // Reset to empty
                self[y] = row;
                assert(self.grid() =~= before.update(y as int, before[y as int].update(x as int, None)));
            } else {
                assert(self.grid() == before);
            }
            proof {
                let next = paint_first(g0, *block, i + 1, None);
                assert forall|yy: int| 0 <= yy < FIELD_HEIGHT implies #[trigger] self.grid()[yy] =~= next[yy] by {
                    assert forall|xx: int| 0 <= xx < FIELD_WIDTH implies self.grid()[yy][xx] == next[yy][xx] by {
                        if cells_of(*block)[i as int] == (xx, yy) {
                            assert(covers_first(*block, i + 1, xx, yy));
                        }
                        if covers_first(*block, i + 1, xx, yy) && !covers_first(*block, i as int, xx, yy) {
                            let j = choose|j: int| 0 <= j < i + 1 && #[trigger] cells_of(*block)[j] == (xx, yy);
                            assert(j == i);
                        }
                        if covers_first(*block, i as int, xx, yy) {
                            let j = choose|j: int| 0 <= j < i && #[trigger] cells_of(*block)[j] == (xx, yy);
                            assert(covers_first(*block, i + 1, xx, yy));
                        }
                    }
                }
                assert(self.grid() =~= next);
            }
            i = i + 1;
        }
    }

    fn is_gameover(&self) -> (r: bool) {
        let mut x: usize = 0;
        while x < FIELD_WIDTH
            invariant
                x <= FIELD_WIDTH,
                shaped(self.grid()),
                forall|j: int| 0 <= j < x ==> (#[trigger] self.grid()[FIELD_MARGIN as int][j]) is None,
            decreases FIELD_WIDTH - x,
        {
            if self[FIELD_MARGIN][x].is_some() {
                return true;  // If any block is set in the top row, game over
            }
            x = x + 1;
        }
        false
    }

    fn check_complete_line(&self, y: usize) -> (r: bool) {
        let row = self[y];
        let mut x: usize = 0;
        while x < FIELD_WIDTH
            invariant
                x <= FIELD_WIDTH,
                y < FIELD_HEIGHT,
                shaped(self.grid()),
                row@ == self.grid()[y as int],
                forall|j: int| 0 <= j < x ==> (#[trigger] row@[j]) is Some,
            decreases FIELD_WIDTH - x,
        {
            if row[x].is_none() {
                return false;
            }
            x = x + 1;
        }
        true
    }

    fn clear_lines(&mut self) -> (r: u8) {
        let ghost g0 = self.grid();
        let mut cleared: u8 = 0;
        let mut y: usize = 0;
        while y < FIELD_HEIGHT
            invariant
                y <= FIELD_HEIGHT,
                cleared <= y,
                shaped(self.grid()),
                clear_from(g0, 0, 0) == clear_from(self.grid(), y as int, cleared as int),
            decreases FIELD_HEIGHT - y,
        {
            if self.check_complete_line(y) {
                let ghost g1 = self.grid();
                let mut i: usize = y;
                while i >= 1
                    invariant
                        i <= y < FIELD_HEIGHT,
                        shaped(self.grid()),
                        shaped(g1),
                        self.grid() == Seq::new(
                            g1.len(),
                            |r: int| if i < r <= y { g1[r - 1] } else { g1[r] },
                        ),
                    decreases i,
                {
                    let above = self[i - 1];
                    let ghost before = self.grid();
                    assert(before[i - 1] == g1[i - 1]);
                    assert(above@ == g1[i - 1]);
                    self[i] = above;
                    proof {
                        assert(self.grid() =~= before.update(i as int, above@));
                        assert(self.grid() =~= Seq::new(
                            g1.len(),
                            |r: int| if i - 1 < r <= y { g1[r - 1] } else { g1[r] },
                        ));
                    }
                    i = i - 1;
                }
                assert(self.grid() =~= shift_down(g1, y as int));
                cleared += 1;
            }
            y = y + 1;
        }
        let e: [Option<BlockType>; FIELD_WIDTH] = [None, None, None, None, None, None, None, None, None, None];
        self[0] = e;
        proof {
            assert(e@ =~= blank_row());
            assert(self.grid() =~= clear_from(self.grid(), FIELD_HEIGHT as int, 0).0.update(0, blank_row()));
        }
        cleared
    }
}


/// Placing a block that fits and then removing it gives back the field it was placed on.
pub proof fn lemma_set_then_remove(g: Grid, b: Block)
    requires
        shaped(g),
        !collides(g, b),
    ensures
        paint_block(paint_block(g, b, Some(b.block_type)), b, None) == g,
{
    let g1 = paint_block(g, b, Some(b.block_type));
    let g2 = paint_block(g1, b, None);
    assert forall|y: int| 0 <= y < g.len() implies #[trigger] g2[y] =~= g[y] by {
        assert forall|x: int| 0 <= x < g[y].len() implies g2[y][x] == g[y][x] by {
            if covers(b, x, y) {
                let i = choose|i: int| 0 <= i < 4 && #[trigger] cells_of(b)[i] == (x, y);
                assert(!(!on_field(cells_of(b)[i].0, cells_of(b)[i].1) || cell_of(
                    g,
                    cells_of(b)[i].0,
                    cells_of(b)[i].1,
                ) is Some));
            }
        }
    }
    assert(g2 =~= g);
}

/// Once a block is placed, the same block no longer fits at that place.
pub proof fn lemma_set_then_collides(g: Grid, b: Block)
    requires
        shaped(g),
        !collides(g, b),
    ensures
        collides(paint_block(g, b, Some(b.block_type)), b),
{
    let g1 = paint_block(g, b, Some(b.block_type));
    let p = cells_of(b)[0];
    assert(on_field(p.0, p.1));
    assert(covers(b, p.0, p.1));
    assert(cell_of(g1, p.0, p.1) is Some);
}

/// The rows among the first `n` rows of `g` that are not complete, in order.
pub open spec fn kept_rows(g: Grid, n: int) -> Grid
    decreases n,
{
    if n <= 0 {
        Seq::empty()
    } else if row_is_complete(g[n - 1]) {
        kept_rows(g, n - 1)
    } else {
        kept_rows(g, n - 1).push(g[n - 1])
    }
}

proof fn lemma_kept_len(g: Grid, n: int)
    requires
        0 <= n,
    ensures
        kept_rows(g, n).len() <= n,
    decreases n,
{
    if n > 0 {
        lemma_kept_len(g, n - 1);
    }
}

/// When the top row is not complete, it is the first kept row.
proof fn lemma_kept_first(g: Grid, n: int)
    requires
        1 <= n,
        !row_is_complete(g[0]),
    ensures
        kept_rows(g, n).len() >= 1,
        kept_rows(g, n)[0] == g[0],
    decreases n,
{
    if n > 1 {
        lemma_kept_first(g, n - 1);
        let k = kept_rows(g, n - 1);
        if !row_is_complete(g[n - 1]) {
            assert(kept_rows(g, n) == k.push(g[n - 1]));
            assert(k.push(g[n - 1])[0] == k[0]);
        }
    } else {
        assert(kept_rows(g, 0).len() == 0);
        assert(kept_rows(g, 1) == kept_rows(g, 0).push(g[0]));
    }
}

/// The state of line clearing after the rows before `y` were checked, on a
/// field `g` whose top row is empty: `cl` copies of the (empty) top row, then
/// the kept rows before `y`, then the unchecked rows of `g`.
pub open spec fn clearing_state(g: Grid, cur: Grid, y: int, cl: int) -> bool {
    &&& 0 <= y <= FIELD_HEIGHT
    &&& shaped(cur)
    &&& cur[0] == g[0]
    &&& cl == y - kept_rows(g, y).len()
    &&& forall|i: int| 0 <= i < cl ==> #[trigger] cur[i] == g[0]
    &&& forall|i: int| cl <= i < y ==> #[trigger] cur[i] == kept_rows(g, y)[i - cl]
    &&& forall|i: int| y <= i < FIELD_HEIGHT ==> #[trigger] cur[i] == g[i]
}

proof fn lemma_clearing(g: Grid, cur: Grid, y: int, cl: int)
    requires
        shaped(g),
        row_is_empty(g[0]),
        clearing_state(g, cur, y, cl),
    ensures
        ({
            let (g2, c) = clear_from(cur, y, cl);
            &&& shaped(g2)
            &&& c == FIELD_HEIGHT - kept_rows(g, FIELD_HEIGHT as int).len()
            &&& forall|i: int| 0 <= i < c ==> row_is_empty(#[trigger] g2[i])
            &&& forall|i: int|
                c <= i < FIELD_HEIGHT ==> #[trigger] g2[i] == kept_rows(g, FIELD_HEIGHT as int)[i
                    - c]
        }),
    decreases FIELD_HEIGHT - y,
{
    lemma_kept_len(g, y);
    assert(g[0][0] is None);
    if y >= FIELD_HEIGHT {
        let g2 = cur.update(0, blank_row());
        assert(clear_from(cur, y, cl) == (g2, cl));
        assert(g[0] =~= blank_row());
        if cl == 0 {
            lemma_kept_first(g, y);
        }
        assert forall|i: int| 0 <= i < cl implies row_is_empty(#[trigger] g2[i]) by {
            if i > 0 {
                assert(g2[i] == g[0]);
            }
        }
        assert forall|i: int| cl <= i < FIELD_HEIGHT implies #[trigger] g2[i] == kept_rows(
            g,
            FIELD_HEIGHT as int,
        )[i - cl] by {
            if i == 0 {
                assert(g2[0] == blank_row());
            } else {
                assert(g2[i] == cur[i]);
            }
        }
        assert(shaped(g2));
    } else if row_is_complete(cur[y]) {
        let next = shift_down(cur, y);
        assert(cur[y] == g[y]);
        assert(y != 0);
        assert(kept_rows(g, y + 1) == kept_rows(g, y));
        assert forall|i: int| 0 <= i < cl + 1 implies #[trigger] next[i] == g[0] by {
            if i > 0 {
                assert(next[i] == cur[i - 1]);
            }
        }
        assert forall|i: int| cl + 1 <= i < y + 1 implies #[trigger] next[i] == kept_rows(
            g,
            y + 1,
        )[i - (cl + 1)] by {
            assert(next[i] == cur[i - 1]);
        }
        assert forall|i: int| y + 1 <= i < FIELD_HEIGHT implies #[trigger] next[i] == g[i] by {
            assert(next[i] == cur[i]);
        }
        assert forall|i: int| 0 <= i < FIELD_HEIGHT implies (#[trigger] next[i]).len() == FIELD_WIDTH by {
            if 1 <= i <= y {
                assert(next[i] == cur[i - 1]);
            }
        }
        assert(clearing_state(g, next, y + 1, cl + 1));
        lemma_clearing(g, next, y + 1, cl + 1);
    } else {
        assert(cur[y] == g[y]);
        assert(kept_rows(g, y + 1) == kept_rows(g, y).push(g[y]));
        assert(clearing_state(g, cur, y + 1, cl));
        lemma_clearing(g, cur, y + 1, cl);
    }
}

/// Clearing lines on a field whose top row is empty removes every complete row,
/// keeps the other rows in their order at the bottom, fills the top with empty
/// rows, and counts the removed rows.
pub proof fn lemma_clear_lines(g: Grid)
    requires
        shaped(g),
        row_is_empty(g[0]),
    ensures
        ({
            let (g2, c) = clear_from(g, 0, 0);
            let kept = kept_rows(g, FIELD_HEIGHT as int);
            &&& shaped(g2)
            &&& c == FIELD_HEIGHT - kept.len()
            &&& forall|i: int| 0 <= i < c ==> row_is_empty(#[trigger] g2[i])
            &&& forall|i: int| c <= i < FIELD_HEIGHT ==> #[trigger] g2[i] == kept[i - c]
        }),
{
    assert(kept_rows(g, 0) == Seq::<Seq<Option<BlockType>>>::empty());
    assert(clearing_state(g, g, 0, 0));
    lemma_clearing(g, g, 0, 0);
}

} // verus!
