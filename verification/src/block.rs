//! Falling blocks (tetrominoes): their shapes, rotation and movement.

use vstd::prelude::*;

verus! {

/// A cell position: column `x`, row `y` (rows grow downwards).
#[derive(Debug, Clone, Copy, PartialEq, Eq, Structural)]
pub struct Pos {
    pub x: i32,
    pub y: i32,
}

impl Pos {
    /// The position `(x, y)`.
    pub fn new(x: i32, y: i32) -> (r: Pos)
        ensures
            r == (Pos { x, y }),
    {
        Pos { x, y }
    }
}

/// The kind of a block: one of the seven tetrominoes, or none.
#[derive(Debug, Clone, Copy, PartialEq, Eq, Structural)]
pub enum BlockType {
    Empty,
    I,
    O,
    S,
    Z,
    J,
    L,
    T,
}

impl Default for BlockType {
    fn default() -> (r: BlockType)
        ensures
            r == BlockType::Empty,
    {
        BlockType::Empty
    }
}

/// The positions, relative to the center, of the three cells of a block of
/// type `t` other than its center (all at the center for an empty block).
pub open spec fn shape(t: BlockType) -> Seq<Pos> {
    match t {
        BlockType::Empty => seq![Pos { x: 0, y: 0 }, Pos { x: 0, y: 0 }, Pos { x: 0, y: 0 }],
        BlockType::I => seq![Pos { x: 0, y: -2i32 }, Pos { x: 0, y: -1i32 }, Pos { x: 0, y: 1 }],
        BlockType::O => seq![Pos { x: 1, y: 0 }, Pos { x: 0, y: -1i32 }, Pos { x: 1, y: -1i32 }],
        BlockType::S => seq![Pos { x: -1i32, y: 0 }, Pos { x: 0, y: -1i32 }, Pos { x: 1, y: -1i32 }],
        BlockType::Z => seq![Pos { x: -1i32, y: -1i32 }, Pos { x: 0, y: -1i32 }, Pos { x: 1, y: 0 }],
        BlockType::J => seq![Pos { x: -1i32, y: -1i32 }, Pos { x: -1i32, y: 0 }, Pos { x: 1, y: 0 }],
        BlockType::L => seq![Pos { x: -1i32, y: 0 }, Pos { x: 1, y: 0 }, Pos { x: 1, y: -1i32 }],
        BlockType::T => seq![Pos { x: -1i32, y: 0 }, Pos { x: 1, y: 0 }, Pos { x: 0, y: -1i32 }],
    }
}

/// The color number of a block type: 0 for empty, 1 to 7 for I, O, S, Z, J, L, T.
pub open spec fn color_of(t: BlockType) -> u8 {
    match t {
        BlockType::Empty => 0,
        BlockType::I => 1,
        BlockType::O => 2,
        BlockType::S => 3,
        BlockType::Z => 4,
        BlockType::J => 5,
        BlockType::L => 6,
        BlockType::T => 7,
    }
}

/// The non-empty block types in the order in which a random draw picks them.
pub open spec fn random_types() -> Seq<BlockType> {
    seq![
        BlockType::I,
        BlockType::O,
        BlockType::S,
        BlockType::Z,
        BlockType::J,
        BlockType::L,
        BlockType::T,
    ]
}

/// A random `usize` from the thread-local generator (`rand::random`).
/// Its value depends on chance: nothing is stated of it.
#[verifier::external_body]
fn random_usize() -> usize {
    rand::random::<usize>()
}

impl BlockType {
    /// The block type that the random number `r` picks: one of the seven
    /// non-empty types, by `r` modulo seven.
    pub fn from_random(r: usize) -> (t: BlockType)
        ensures
            t == random_types()[(r % 7) as int],
    {
        let types = [
            BlockType::I,
            BlockType::O,
            BlockType::S,
            BlockType::Z,
            BlockType::J,
            BlockType::L,
            BlockType::T,
        ];
        let idx = r % 7;
        let t = types[idx];
        assert(types@ == random_types());
        t
    }

    /// A block type picked at random among the seven non-empty types.
    pub fn get_random() -> (t: BlockType)
        ensures
            random_types().contains(t),
            t != BlockType::Empty,
    {
        let t = BlockType::from_random(random_usize());
        proof {
            let r = random_types();
            assert(r.contains(t));
        }
        t
    }

    /// The positions of the three cells other than the center, relative to the center.
    pub fn get_relative_positions(&self) -> (r: [Pos; 3])
        ensures
            r@ == shape(*self),
    {
        let r = match self {
            BlockType::Empty => [Pos::new(0, 0), Pos::new(0, 0), Pos::new(0, 0)],
            BlockType::I => [Pos::new(0, -2), Pos::new(0, -1), Pos::new(0, 1)],
            BlockType::O => [Pos::new(1, 0), Pos::new(0, -1), Pos::new(1, -1)],
            BlockType::S => [Pos::new(-1, 0), Pos::new(0, -1), Pos::new(1, -1)],
            BlockType::Z => [Pos::new(-1, -1), Pos::new(0, -1), Pos::new(1, 0)],
            BlockType::J => [Pos::new(-1, -1), Pos::new(-1, 0), Pos::new(1, 0)],
            BlockType::L => [Pos::new(-1, 0), Pos::new(1, 0), Pos::new(1, -1)],
            BlockType::T => [Pos::new(-1, 0), Pos::new(1, 0), Pos::new(0, -1)],
        };
        assert(r@ =~= shape(*self));
        r
    }

    /// The color number of the block type.
    pub fn get_color(&self) -> (r: u8)
        ensures
            r == color_of(*self),
    {
        match self {
            BlockType::Empty => 0,
            BlockType::I => 1,
            BlockType::O => 2,
            BlockType::S => 3,
            BlockType::Z => 4,
            BlockType::J => 5,
            BlockType::L => 6,
            BlockType::T => 7,
        }
    }

    /// Whether this is the empty block type.
    pub fn is_empty(&self) -> (r: bool)
        ensures
            r == (*self == BlockType::Empty),
    {
        match self {
            BlockType::Empty => true,
            _ => false,
        }
    }

    /// Whether this is one of the seven tetrominoes.
    pub fn is_block(&self) -> (r: bool)
        ensures
            r == (*self != BlockType::Empty),
    {
        !self.is_empty()
    }
}

/// A falling block: its center, its kind and its rotation.
#[derive(Debug, Clone, Copy, PartialEq, Eq, Structural)]
pub struct Block {
    pub center_pos: Pos,
    pub block_type: BlockType,
    pub rotation: u8,  // 0-3 for 0-270 degrees
}

/// The offset `p` turned by `rotation` quarter turns (`(0, 0)` for a rotation above 3).
pub open spec fn rotate_offset(p: Pos, rotation: u8) -> (int, int) {
    if rotation == 0 {
        (p.x as int, p.y as int)
    } else if rotation == 1 {
        (p.y as int, -p.x)
    } else if rotation == 2 {
        (-p.x, -p.y)
    } else if rotation == 3 {
        (-p.y, p.x as int)
    } else {
        (0, 0)
    }
}

/// The four cells that block `b` covers: its center, then its three other
/// cells turned by its rotation about the center.
pub open spec fn cells_of(b: Block) -> Seq<(int, int)> {
    let c = b.center_pos;
    let s = shape(b.block_type);
    seq![
        (c.x as int, c.y as int),
        (c.x + rotate_offset(s[0], b.rotation).0, c.y + rotate_offset(s[0], b.rotation).1),
        (c.x + rotate_offset(s[1], b.rotation).0, c.y + rotate_offset(s[1], b.rotation).1),
        (c.x + rotate_offset(s[2], b.rotation).0, c.y + rotate_offset(s[2], b.rotation).1),
    ]
}

/// Whether `v` is in the range of `i32`.
pub open spec fn in_i32(v: int) -> bool {
    i32::MIN <= v <= i32::MAX
}

/// Whether every cell of block `b` has coordinates in the range of `i32`.
pub open spec fn cells_fit(b: Block) -> bool {
    forall|i: int| 0 <= i < 4 ==> in_i32(#[trigger] cells_of(b)[i].0) && in_i32(cells_of(b)[i].1)
}

impl Block {
    /// A block of the given type at `center_pos`, not rotated.
    pub fn new(center_pos: Pos, block_type: BlockType) -> (r: Block)
        ensures
            r == (Block { center_pos, block_type, rotation: 0 }),
    {
        Self { center_pos, block_type, rotation: 0 }
    }

    /// A block of a randomly picked type at `center_pos`, not rotated.
    pub fn new_random(center_pos: Pos) -> (r: Block)
        ensures
            r.center_pos == center_pos,
            r.rotation == 0,
            random_types().contains(r.block_type),
    {
        Self { center_pos, block_type: BlockType::get_random(), rotation: 0 }
    }

    /// Moves the block to `pos` and undoes its rotation.
    pub fn init(&mut self, pos: Pos)
        ensures
            *final(self) == (Block { center_pos: pos, block_type: old(self).block_type, rotation: 0 }),
    {
        self.center_pos = pos;
        self.rotation = 0;
    }

    /// Turns the block a quarter turn.
    pub fn rotate(&mut self)
        requires
            old(self).rotation < 255,
        ensures
            *final(self) == (Block { rotation: ((old(self).rotation + 1) % 4) as u8, ..*old(self) }),
    {
        self.rotation = (self.rotation + 1) % 4;
    }

    /// Turns the block a quarter turn back.
    pub fn rotate_back(&mut self)
        requires
            old(self).rotation <= 252,
        ensures
            *final(self) == (Block { rotation: ((old(self).rotation + 3) % 4) as u8, ..*old(self) }),
    {
        self.rotation = (self.rotation + 3) % 4;
    }

    /// One offset of the shape turned by the rotation and added to the center.
    fn place(&self, p: Pos) -> (r: Pos)
        requires
            -2 <= p.x <= 2,
            -2 <= p.y <= 2,
            in_i32(self.center_pos.x + rotate_offset(p, self.rotation).0),
            in_i32(self.center_pos.y + rotate_offset(p, self.rotation).1),
        ensures
            r.x == self.center_pos.x + rotate_offset(p, self.rotation).0,
            r.y == self.center_pos.y + rotate_offset(p, self.rotation).1,
    {
        let (x, y) = match self.rotation {
            0 => (p.x, p.y),  // 0 degrees
            1 => (p.y, -p.x),  // 90 degrees
            2 => (-p.x, -p.y),  // 180 degrees
            3 => (-p.y, p.x),  // 270 degrees
            _ => (0, 0),  // This should never happen
        };
        Pos::new(self.center_pos.x + x, self.center_pos.y + y)
    }

    /// The positions of the four cells of the block: the center first.
    pub fn get_relative_positions(&self) -> (r: [Pos; 4])
        requires
            cells_fit(*self),
        ensures
            forall|i: int|
                0 <= i < 4 ==> (#[trigger] r@[i].x as int, r@[i].y as int) == cells_of(*self)[i],
    {
        let relative_positions = self.block_type.get_relative_positions();
        proof {
            assert(in_i32(cells_of(*self)[1].0) && in_i32(cells_of(*self)[1].1));
            assert(in_i32(cells_of(*self)[2].0) && in_i32(cells_of(*self)[2].1));
            assert(in_i32(cells_of(*self)[3].0) && in_i32(cells_of(*self)[3].1));
        }
        let p0 = self.place(relative_positions[0]);
        let p1 = self.place(relative_positions[1]);
        let p2 = self.place(relative_positions[2]);
        let r = [self.center_pos, p0, p1, p2];
        assert(forall|i: int|
            0 <= i < 4 ==> (#[trigger] r@[i].x as int, r@[i].y as int) == cells_of(*self)[i]);
        r
    }

    /// Moves the block by `(dx, dy)`.
    pub fn move_by(&mut self, dx: i32, dy: i32)
        requires
            in_i32(old(self).center_pos.x + dx),
            in_i32(old(self).center_pos.y + dy),
        ensures
            final(self).center_pos.x == old(self).center_pos.x + dx,
            final(self).center_pos.y == old(self).center_pos.y + dy,
            final(self).block_type == old(self).block_type,
            final(self).rotation == old(self).rotation,
    {
        self.center_pos.x += dx;
        self.center_pos.y += dy;
    }
}


/// Turning a block forward and then back (or back and then forward) restores
/// its rotation, for each of the four rotations 0 to 3.
pub proof fn lemma_rotate_inverse(rotation: u8)
    requires
        rotation < 4,
    ensures
        ((((rotation + 1) % 4) as u8 + 3) % 4) as u8 == rotation,
        ((((rotation + 3) % 4) as u8 + 1) % 4) as u8 == rotation,
{
}

/// Four quarter turns bring a block back to its rotation.
pub proof fn lemma_rotate_four_times(rotation: u8)
    requires
        rotation < 4,
    ensures
        ({
            let r1 = ((rotation + 1) % 4) as u8;
            let r2 = ((r1 + 1) % 4) as u8;
            let r3 = ((r2 + 1) % 4) as u8;
            ((r3 + 1) % 4) as u8 == rotation
        }),
{
}

/// Turning a block by a quarter turn turns each of its cells by a quarter
/// turn about the center: `(dx, dy)` becomes `(dy, -dx)`.
pub proof fn lemma_rotation_turns_cells(b: Block, i: int)
    requires
        b.rotation < 3,
        1 <= i < 4,
    ensures
        ({
            let c = b.center_pos;
            let turned = Block { rotation: (b.rotation + 1) as u8, ..b };
            let (x0, y0) = cells_of(b)[i];
            let (x1, y1) = cells_of(turned)[i];
            &&& x1 - c.x == y0 - c.y
            &&& y1 - c.y == -(x0 - c.x)
        }),
{
}


/// The cells that a block of type `t` covers, relative to its center, before rotation.
pub open spec fn shape_cells(t: BlockType) -> Set<(int, int)> {
    let s = shape(t);
    set![
        (0int, 0int),
        (s[0].x as int, s[0].y as int),
        (s[1].x as int, s[1].y as int),
        (s[2].x as int, s[2].y as int),
    ]
}

/// `cells` reflected in the vertical axis through the center.
pub open spec fn mirrored(cells: Set<(int, int)>) -> Set<(int, int)> {
    cells.map(|p: (int, int)| (-p.0, p.1))
}

/// Each of the seven tetrominoes covers four distinct cells.
pub proof fn lemma_tetromino_has_four_cells(t: BlockType)
    requires
        t != BlockType::Empty,
    ensures
        ({
            let s = shape(t);
            let c = seq![
                (0int, 0int),
                (s[0].x as int, s[0].y as int),
                (s[1].x as int, s[1].y as int),
                (s[2].x as int, s[2].y as int),
            ];
            forall|i: int, j: int| 0 <= i < j < 4 ==> c[i] != c[j]
        }),
{
}

/// The seven tetrominoes have pairwise different shapes.
pub proof fn lemma_tetrominoes_distinct(t1: BlockType, t2: BlockType)
    requires
        t1 != BlockType::Empty,
        t2 != BlockType::Empty,
        t1 != t2,
    ensures
        shape_cells(t1) != shape_cells(t2),
{
    if shape_cells(t1) == shape_cells(t2) {
        let a = shape_cells(t1);
        let b = shape_cells(t2);
        assert(a.contains((-1, 0)) == b.contains((-1, 0)));
        assert(a.contains((1, 0)) == b.contains((1, 0)));
        assert(a.contains((0, -1)) == b.contains((0, -1)));
        assert(a.contains((1, -1)) == b.contains((1, -1)));
        assert(a.contains((-1, -1)) == b.contains((-1, -1)));
        assert(a.contains((0, -2)) == b.contains((0, -2)));
    }
}

/// The S tetromino covers the center and the cell to its left, and the cell
/// above the center and the one above and to the right; the Z tetromino is its
/// mirror image, and so is L of J. Rows grow downwards.
pub proof fn lemma_tetromino_mirrors()
    ensures
        shape_cells(BlockType::S) == set![(0int, 0int), (-1int, 0int), (0int, -1int), (1int, -1int)],
        shape_cells(BlockType::Z) == mirrored(shape_cells(BlockType::S)),
        shape_cells(BlockType::L) == mirrored(shape_cells(BlockType::J)),
{
    let s = shape_cells(BlockType::S);
    let z = shape_cells(BlockType::Z);
    assert(s =~= set![(0int, 0int), (-1int, 0int), (0int, -1int), (1int, -1int)]);
    let ms = mirrored(s);
    assert forall|p: (int, int)| #[trigger] ms.contains(p) <==> z.contains(p) by {
        if z.contains(p) {
            let q = (-p.0, p.1);
            assert(s.contains(q));
            assert(p == (-q.0, q.1));
        }
    }
    assert(z =~= ms);
    let j = shape_cells(BlockType::J);
    let l = shape_cells(BlockType::L);
    let mj = mirrored(j);
    assert forall|p: (int, int)| #[trigger] mj.contains(p) <==> l.contains(p) by {
        if l.contains(p) {
            let q = (-p.0, p.1);
            assert(j.contains(q));
            assert(p == (-q.0, q.1));
        }
    }
    assert(l =~= mj);
}
} // verus!
