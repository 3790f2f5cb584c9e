//! Integer geometry: positions, sizes and rectangular regions.

use vstd::prelude::*;
use vstd::arithmetic::div_mod::{lemma_fundamental_div_mod, lemma_fundamental_div_mod_converse};
use vstd::arithmetic::mul::{lemma_mul_inequality, lemma_mul_is_distributive_add_other_way};

verus! {

/// A point of an integer grid: a pixel of the window or a cell of the board.
#[derive(Debug, Clone, Copy, PartialEq, Eq, Hash, Structural)]
pub struct Position {
    pub x: i32,
    pub y: i32,
}

impl Position {
    pub fn from_xy(x: i32, y: i32) -> (p: Self)
        ensures
            p.x == x,
            p.y == y,
    {
        Position { x, y }
    }

    /// The position `n` columns to the right.
    pub fn move_x(self, n: i32) -> (p: Self)
        requires
            i32::MIN <= self.x + n <= i32::MAX,
        ensures
            p.x == self.x + n,
            p.y == self.y,
    {
        Position { x: self.x + n, y: self.y }
    }

    /// The position `n` rows down.
    pub fn move_y(self, n: i32) -> (p: Self)
        requires
            i32::MIN <= self.y + n <= i32::MAX,
        ensures
            p.x == self.x,
            p.y == self.y + n,
    {
        Position { x: self.x, y: self.y + n }
    }
}

impl Default for Position {
    fn default() -> (p: Self)
        ensures
            p.x == 0,
            p.y == 0,
    {
        Position { x: 0, y: 0 }
    }
}

/// The extent of a rectangle, in pixels or in cells.
#[derive(Debug, Clone, Copy, PartialEq, Eq, Hash, Structural)]
pub struct Size {
    pub width: u32,
    pub height: u32,
}

impl Size {
    pub fn from_wh(width: u32, height: u32) -> (s: Self)
        ensures
            s.width == width,
            s.height == height,
    {
        Size { width, height }
    }

    pub fn square(size: u32) -> (s: Self)
        ensures
            s.width == size,
            s.height == size,
    {
        Size { width: size, height: size }
    }

    /// The region of this size whose top-left corner is the origin.
    pub fn to_region(self) -> (r: Region)
        ensures
            r.position.x == 0,
            r.position.y == 0,
            r.size == self,
    {
        Region { position: Position { x: 0, y: 0 }, size: self }
    }
}

impl Default for Size {
    fn default() -> (s: Self)
        ensures
            s.width == 0,
            s.height == 0,
    {
        Size { width: 0, height: 0 }
    }
}

/// A rectangle: its top-left corner and its extent. The right and bottom
/// edges are exclusive.
#[derive(Debug, Clone, Copy, PartialEq, Eq, Hash, Structural)]
pub struct Region {
    pub position: Position,
    pub size: Size,
}

impl Region {
    /// The column just right of the region.
    pub open spec fn end_x(self) -> int {
        self.position.x + self.size.width
    }

    /// The row just below the region.
    pub open spec fn end_y(self) -> int {
        self.position.y + self.size.height
    }

    /// Whether the point `(x, y)` lies in the region.
    pub open spec fn holds(self, x: int, y: int) -> bool {
        self.position.x <= x < self.end_x() && self.position.y <= y < self.end_y()
    }

    /// Whether `p` lies in the region.
    pub open spec fn spec_contains(self, p: Position) -> bool {
        self.holds(p.x as int, p.y as int)
    }

    /// The number of positions in the region.
    pub open spec fn area(self) -> nat {
        (self.size.width * self.size.height) as nat
    }

    /// The `i`-th position of the region, counting row by row from the
    /// top-left corner.
    pub open spec fn position_at(self, i: int) -> Position {
        Position {
            x: (self.position.x + i % (self.size.width as int)) as i32,
            y: (self.position.y + i / (self.size.width as int)) as i32,
        }
    }

    /// All positions of the region, row by row from the top-left corner.
    pub open spec fn spec_positions(self) -> Seq<Position> {
        Seq::new(self.area(), |i: int| self.position_at(i))
    }

    /// The region's last column and row are coordinates, and its positions
    /// can be counted.
    pub open spec fn countable(self) -> bool {
        &&& self.end_x() <= i32::MAX + 1
        &&& self.end_y() <= i32::MAX + 1
        &&& self.size.width * self.size.height <= usize::MAX
    }

    /// Where `p` stands among the positions of the region.
    pub open spec fn index_of(self, p: Position) -> int {
        (p.y - self.position.y) * self.size.width + (p.x - self.position.x)
    }

    /// Each index below the area names a position of the region, and that
    /// position stands at this index.
    pub proof fn lemma_position_at(self, i: int)
        requires
            self.countable(),
            0 <= i < self.area(),
        ensures
            self.spec_contains(self.position_at(i)),
            self.index_of(self.position_at(i)) == i,
    {
        let w = self.size.width as int;
        let h = self.size.height as int;
        assert(w > 0) by (nonlinear_arith)
            requires
                0 <= i < w * h,
                0 <= w,
                0 <= h,
        ;
        lemma_fundamental_div_mod(i, w);
        assert(0 <= i / w < h) by (nonlinear_arith)
            requires
                0 <= i < w * h,
                0 < w,
                i == w * (i / w) + i % w,
                0 <= i % w < w,
        ;
        assert((i / w) * w == w * (i / w)) by (nonlinear_arith);
    }

    /// Each position of the region stands at an index below the area.
    pub proof fn lemma_index_of(self, p: Position)
        requires
            self.countable(),
            self.spec_contains(p),
        ensures
            0 <= self.index_of(p) < self.area(),
            self.position_at(self.index_of(p)) == p,
    {
        let w = self.size.width as int;
        let h = self.size.height as int;
        let col = p.x - self.position.x;
        let row = p.y - self.position.y;
        let i = self.index_of(p);
        assert(0 <= row * w + col < w * h) by (nonlinear_arith)
            requires
                0 <= col < w,
                0 <= row < h,
        ;
        assert(i == w * row + col) by (nonlinear_arith)
            requires
                i == row * w + col,
        ;
        lemma_fundamental_div_mod_converse(i, w, row, col);
    }

    /// The positions of the region are those it contains, each once.
    pub proof fn lemma_positions(self)
        requires
            self.countable(),
        ensures
            self.spec_positions().len() == self.area(),
            self.spec_positions().no_duplicates(),
            forall|p: Position| #[trigger]
                self.spec_positions().contains(p) <==> self.spec_contains(p),
    {
        let all = self.spec_positions();
        assert forall|i: int, j: int| 0 <= i < all.len() && 0 <= j < all.len() && i != j implies all[i]
            != all[j] by {
            self.lemma_position_at(i);
            self.lemma_position_at(j);
        }
        assert forall|p: Position| #[trigger] all.contains(p) <==> self.spec_contains(p) by {
            if all.contains(p) {
                let i = choose|i: int| 0 <= i < all.len() && all[i] == p;
                self.lemma_position_at(i);
            }
            if self.spec_contains(p) {
                self.lemma_index_of(p);
                assert(all[self.index_of(p)] == p);
            }
        }
    }

    /// The empty region at the origin.
    pub open spec fn default_value() -> Region {
        Region { position: Position { x: 0, y: 0 }, size: Size { width: 0, height: 0 } }
    }

    pub fn new(position: Position, size: Size) -> (r: Self)
        ensures
            r.position == position,
            r.size == size,
    {
        Region { position, size }
    }

    pub fn start(self) -> (p: Position)
        ensures
            p == self.position,
    {
        self.position
    }

    /// The corner opposite to `start`, just outside the region.
    pub fn end(self) -> (p: Position)
        requires
            self.end_x() <= i32::MAX,
            self.end_y() <= i32::MAX,
        ensures
            p.x == self.end_x(),
            p.y == self.end_y(),
    {
        let x: i64 = self.position.x as i64 + self.size.width as i64;
        let y: i64 = self.position.y as i64 + self.size.height as i64;
        Position { x: x as i32, y: y as i32 }
    }

    #[verifier::when_used_as_spec(spec_contains)]
    pub fn contains(self, p: Position) -> (b: bool)
        ensures
            b == self.spec_contains(p),
    {
        let x: i64 = p.x as i64;
        let y: i64 = p.y as i64;
        let left: i64 = self.position.x as i64;
        let top: i64 = self.position.y as i64;
        left <= x && x < left + self.size.width as i64 && top <= y && y < top
            + self.size.height as i64
    }

    /// Whether the point `(x, y)` lies in the region.
    pub fn holds_at(self, x: i64, y: i64) -> (b: bool)
        ensures
            b == self.holds(x as int, y as int),
    {
        let left: i64 = self.position.x as i64;
        let top: i64 = self.position.y as i64;
        left <= x && x < left + self.size.width as i64 && top <= y && y < top
            + self.size.height as i64
    }

    /// All positions of the region, row by row from the top-left corner.
    pub fn positions(self) -> (all: Vec<Position>)
        requires
            self.countable(),
        ensures
            all@ == self.spec_positions(),
    {
        let w: u32 = self.size.width;
        let h: u32 = self.size.height;
        let mut all: Vec<Position> = Vec::new();
        let mut row: u32 = 0;
        while row < h
            invariant
                self.countable(),
                w == self.size.width,
                h == self.size.height,
                row <= h,
                all@ == self.spec_positions().take(row * w),
            decreases h - row,
        {
            let y: i32 = (self.position.y as i64 + row as i64) as i32;
            let mut col: u32 = 0;
            proof {
                lemma_mul_inequality(row as int + 1, h as int, w as int);
            }
            while col < w
                invariant
                    self.countable(),
                    w == self.size.width,
                    h == self.size.height,
                    row < h,
                    col <= w,
                    (row + 1) * w <= h * w,
                    y == self.position.y + row,
                    all@ == self.spec_positions().take(row * w + col),
                decreases w - col,
            {
                let x: i32 = (self.position.x as i64 + col as i64) as i32;
                proof {
                    let i = row * w + col;
                    assert(i + 1 <= (row + 1) * w) by (nonlinear_arith)
                        requires
                            i == row * w + col,
                            col < w,
                    ;
                    assert(self.index_of(Position { x, y }) == i);
                    self.lemma_index_of(Position { x, y });
                    assert(self.spec_positions().take(i + 1) == self.spec_positions().take(
                        i,
                    ).push(Position { x, y }));
                }
                all.push(Position { x, y });
                col += 1;
            }
            proof {
                lemma_mul_is_distributive_add_other_way(w as int, row as int, 1);
            }
            row += 1;
        }
        assert(self.spec_positions().take(h * w) == self.spec_positions()) by {
            assert(h * w == w * h) by (nonlinear_arith);
        }
        all
    }

    /// The region moved to the right by `n` times its width.
    pub fn shift_x(self, n: i32) -> (r: Self)
        requires
            i32::MIN <= self.position.x + self.size.width * n <= i32::MAX,
            self.size.width <= i32::MAX,
        ensures
            r.position.x == self.position.x + self.size.width * n,
            r.position.y == self.position.y,
            r.size == self.size,
    {
        let x: i64 = self.position.x as i64 + self.size.width as i64 * n as i64;
        Region { position: Position { x: x as i32, y: self.position.y }, size: self.size }
    }

    /// The region moved down by `n` times its height.
    pub fn shift_y(self, n: i32) -> (r: Self)
        requires
            i32::MIN <= self.position.y + self.size.height * n <= i32::MAX,
            self.size.height <= i32::MAX,
        ensures
            r.position.x == self.position.x,
            r.position.y == self.position.y + self.size.height * n,
            r.size == self.size,
    {
        let y: i64 = self.position.y as i64 + self.size.height as i64 * n as i64;
        Region { position: Position { x: self.position.x, y: y as i32 }, size: self.size }
    }

    /// The region moved `n` pixels to the right.
    pub fn move_x(self, n: i32) -> (r: Self)
        requires
            i32::MIN <= self.position.x + n <= i32::MAX,
        ensures
            r.position.x == self.position.x + n,
            r.position.y == self.position.y,
            r.size == self.size,
    {
        Region { position: self.position.move_x(n), size: self.size }
    }

    /// The region moved `n` pixels down.
    pub fn move_y(self, n: i32) -> (r: Self)
        requires
            i32::MIN <= self.position.y + n <= i32::MAX,
        ensures
            r.position.x == self.position.x,
            r.position.y == self.position.y + n,
            r.size == self.size,
    {
        Region { position: self.position.move_y(n), size: self.size }
    }
}

impl Default for Region {
    fn default() -> (r: Self)
        ensures
            r == Region::default_value(),
    {
        Region { position: Position { x: 0, y: 0 }, size: Size { width: 0, height: 0 } }
    }
}

} // verus!
