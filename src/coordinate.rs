use vstd::prelude::*;

verus! {

/// Number of cells in each row of the board.
pub const ROW_CELLS: u64 = 8;

/// Number of rows of the board.
pub const ROWS: u64 = 8;

/// Number of cells of the board: one bit of a mask for each.
pub const CELLS: u64 = 64;

/// The six directions of the hex grid.
#[derive(Clone, Copy, Debug, PartialEq, Eq, Hash, Structural)]
pub enum Direction {
    Right,
    DownRight,
    DownLeft,
    Left,
    UpLeft,
    UpRight,
}

impl Direction {
    /// Horizontal offset of one step, in doubled-width columns.
    pub open spec fn dx(self) -> int {
        match self {
            Direction::Right => 2,
            Direction::DownRight => 1,
            Direction::DownLeft => -1,
            Direction::Left => -2,
            Direction::UpLeft => -1,
            Direction::UpRight => 1,
        }
    }

    /// Vertical offset of one step, in rows (rows grow downwards).
    pub open spec fn dy(self) -> int {
        match self {
            Direction::Right => 0,
            Direction::DownRight => 1,
            Direction::DownLeft => 1,
            Direction::Left => 0,
            Direction::UpLeft => -1,
            Direction::UpRight => -1,
        }
    }

    /// The six directions, in the order in which moves are generated.
    pub open spec fn all_spec() -> Seq<Direction> {
        seq![
            Direction::Right,
            Direction::DownRight,
            Direction::DownLeft,
            Direction::Left,
            Direction::UpLeft,
            Direction::UpRight,
        ]
    }

    pub fn vector(&self) -> (r: (i32, i32))
        ensures
            r.0 == self.dx(),
            r.1 == self.dy(),
    {
        match self {
            Direction::Right => (2, 0),
            Direction::DownRight => (1, 1),
            Direction::DownLeft => (-1, 1),
            Direction::Left => (-2, 0),
            Direction::UpLeft => (-1, -1),
            Direction::UpRight => (1, -1),
        }
    }

    pub fn all() -> (r: Vec<Direction>)
        ensures
            r@ == Direction::all_spec(),
    {
        let r = vec![
            Direction::Right,
            Direction::DownRight,
            Direction::DownLeft,
            Direction::Left,
            Direction::UpLeft,
            Direction::UpRight,
        ];
        assert(r@ =~= Direction::all_spec());
        r
    }
}

/// A cell of the board in doubled-width coordinates: `y` is the row and
/// `x` runs over twice as many columns, with `x` and `y` of equal parity,
/// so that odd rows sit half a cell to the right.
#[derive(Clone, Copy, Debug, PartialEq, Eq, Hash, Structural)]
pub struct HexCoordinate {
    pub x: i32,
    pub y: i32,
}

impl HexCoordinate {
    /// The coordinate names a cell of the board.
    pub open spec fn is_valid(self) -> bool {
        &&& 0 <= self.y < ROWS
        &&& 0 <= self.x < 2 * ROW_CELLS
        &&& self.x % 2 == self.y % 2
    }

    /// The bit of a board mask that stands for this cell.
    pub open spec fn index(self) -> int {
        self.y * ROW_CELLS + self.x / 2
    }

    /// The cell that bit `i` of a board mask stands for.
    pub open spec fn of_index(i: int) -> HexCoordinate {
        HexCoordinate {
            x: (2 * (i % ROW_CELLS as int) + (i / ROW_CELLS as int) % 2) as i32,
            y: (i / ROW_CELLS as int) as i32,
        }
    }

    /// One step from this coordinate in direction `d`, on or off the board.
    pub open spec fn step(self, d: Direction) -> HexCoordinate {
        HexCoordinate { x: (self.x + d.dx()) as i32, y: (self.y + d.dy()) as i32 }
    }

    /// A measure of the room left in direction `d`: each step lowers it, and it
    /// stays positive on the board.
    pub open spec fn edge_distance(self, d: Direction) -> int {
        match d {
            Direction::Right => 2 * ROW_CELLS - self.x,
            Direction::Left => self.x + 1,
            Direction::DownRight | Direction::DownLeft => ROWS - self.y,
            Direction::UpLeft | Direction::UpRight => self.y + 1,
        }
    }

    /// The cells on the straight line from this one in direction `d`, this one
    /// excluded, nearest first, up to the edge of the board. (The bound on
    /// `edge_distance` always holds on the board; it makes termination plain.)
    pub open spec fn ray_spec(self, d: Direction) -> Seq<HexCoordinate>
        decreases self.edge_distance(d),
    {
        let n = self.step(d);
        if n.is_valid() && 0 <= n.edge_distance(d) < self.edge_distance(d) {
            seq![n] + n.ray_spec(d)
        } else {
            Seq::empty()
        }
    }

    pub fn new(x: i32, y: i32) -> (r: HexCoordinate)
        ensures
            r.x == x,
            r.y == y,
    {
        HexCoordinate { x, y }
    }

    /// Whether the coordinate names a cell of the board.
    pub fn is_in_bounds(&self) -> (r: bool)
        ensures
            r == self.is_valid(),
    {
        if self.x < 0 || self.y < 0 || self.y >= ROWS as i32 || self.x >= 2 * ROW_CELLS as i32 {
            false
        } else {
            (self.x as u32) % 2 == (self.y as u32) % 2
        }
    }

    /// The bit of a board mask that stands for this cell.
    pub fn to_index(&self) -> (r: u64)
        requires
            self.is_valid(),
        ensures
            r == self.index(),
            r < CELLS,
    {
        (self.y as u64) * ROW_CELLS + (self.x as u64) / 2
    }

    /// The cell that bit `i` of a board mask stands for.
    pub fn from_index(i: u64) -> (r: HexCoordinate)
        requires
            i < CELLS,
        ensures
            r == HexCoordinate::of_index(i as int),
            r.is_valid(),
            r.index() == i,
    {
        let row = i / ROW_CELLS;
        let col = i % ROW_CELLS;
        HexCoordinate { x: (2 * col + row % 2) as i32, y: row as i32 }
    }

    /// The adjacent cell in direction `d`, if it lies on the board.
    pub fn neighbor(&self, d: Direction) -> (r: Option<HexCoordinate>)
        requires
            self.is_valid(),
        ensures
            r == (if self.step(d).is_valid() {
                Some(self.step(d))
            } else {
                None
            }),
    {
        let (dx, dy) = d.vector();
        let n = HexCoordinate { x: self.x + dx, y: self.y + dy };
        if n.is_in_bounds() {
            Some(n)
        } else {
            None
        }
    }

    /// The cells on the straight line from this one in direction `d`, nearest
    /// first, up to the edge of the board.
    pub fn ray(&self, d: Direction) -> (r: Vec<HexCoordinate>)
        requires
            self.is_valid(),
        ensures
            r@ == self.ray_spec(d),
    {
        let mut r: Vec<HexCoordinate> = Vec::new();
        let mut cur = *self;
        assert(r@ + cur.ray_spec(d) =~= self.ray_spec(d));
        loop
            invariant
                cur.is_valid(),
                r@ + cur.ray_spec(d) == self.ray_spec(d),
            ensures
                r@ == self.ray_spec(d),
            decreases cur.edge_distance(d),
        {
            match cur.neighbor(d) {
                Some(n) => {
                    assert(cur.ray_spec(d) == seq![n] + n.ray_spec(d));
                    assert(r@.push(n) + n.ray_spec(d) =~= r@ + cur.ray_spec(d));
                    r.push(n);
                    cur = n;
                },
                None => {
                    assert(r@ + cur.ray_spec(d) =~= r@);
                    break;
                },
            }
        }
        r
    }
}

} // verus!
