//! The grid of cells and the count that the puzzle turns on.

use vstd::prelude::*;
use vstd::seq_lib::{seq_to_set_is_finite, to_multiset_contains, to_multiset_len};
use vstd::set_lib::lemma_set_subset_finite;
use crate::spatial::{Position, Region, Size};

verus! {

/// One cell of the board.
#[derive(Debug, Clone, Copy, PartialEq, Eq, Structural)]
pub struct Cell {
    /// A mine that the board hides here.
    pub expected_mine: bool,
    /// A mine that the player has placed here.
    pub actual_mine: bool,
    /// A wormhole: it takes no mine and counts for nothing.
    pub wormhole: bool,
}

impl Cell {
    /// The cell with nothing in it.
    pub open spec fn blank() -> Cell {
        Cell { expected_mine: false, actual_mine: false, wormhole: false }
    }
}

impl Default for Cell {
    fn default() -> (cell: Self)
        ensures
            cell == Cell::blank(),
    {
        Cell { expected_mine: false, actual_mine: false, wormhole: false }
    }
}

/// The board as a value: rows of cells, top row first, and the region of the
/// grid that is in play.
pub struct BoardView {
    pub cells: Seq<Seq<Cell>>,
    pub region: Region,
}

impl BoardView {
    pub open spec fn height(self) -> int {
        self.cells.len() as int
    }

    pub open spec fn width(self) -> int {
        if self.cells.len() > 0 {
            self.cells[0].len() as int
        } else {
            0
        }
    }

    /// The whole grid as a region.
    pub open spec fn grid(self) -> Region {
        Region {
            position: Position { x: 0, y: 0 },
            size: Size { width: self.width() as u32, height: self.height() as u32 },
        }
    }

    /// The rows are equally long, positions can address every cell, and the
    /// region in play lies on the grid.
    pub open spec fn wf(self) -> bool {
        &&& forall|y: int| 0 <= y < self.cells.len() ==> (#[trigger] self.cells[y]).len() == self.width()
        &&& self.width() <= i32::MAX + 1
        &&& self.height() <= i32::MAX + 1
        &&& self.width() * self.height() <= usize::MAX
        &&& 0 <= self.region.position.x
        &&& 0 <= self.region.position.y
        &&& self.region.end_x() <= self.width()
        &&& self.region.end_y() <= self.height()
    }

    pub open spec fn in_grid(self, p: Position) -> bool {
        0 <= p.x < self.width() && 0 <= p.y < self.height()
    }

    pub open spec fn cell(self, p: Position) -> Cell {
        self.cells[p.y as int][p.x as int]
    }

    /// Whether `p` is a cell of the game: in the region and no wormhole.
    pub open spec fn playable(self, p: Position) -> bool {
        self.region.spec_contains(p) && !self.cell(p).wormhole
    }

    /// What the cell at `(x, y)` adds to the count of a neighbour: one for a
    /// hidden mine, less one for a placed mine. Points off the region and
    /// wormholes add nothing.
    pub open spec fn weight(self, x: int, y: int) -> int {
        if self.region.holds(x, y) && !self.cells[y][x].wormhole {
            (if self.cells[y][x].expected_mine {
                1int
            } else {
                0int
            }) - (if self.cells[y][x].actual_mine {
                1int
            } else {
                0int
            })
        } else {
            0
        }
    }

    /// The weights of `(x, y)` and of its neighbours to the left and right.
    pub open spec fn row_weight(self, x: int, y: int) -> int {
        self.weight(x - 1, y) + self.weight(x, y) + self.weight(x + 1, y)
    }

    /// The hidden mines less the placed mines among the nine cells around and
    /// at `p`.
    pub open spec fn discrepancy(self, p: Position) -> int {
        self.row_weight(p.x as int, p.y - 1) + self.row_weight(p.x as int, p.y as int)
            + self.row_weight(p.x as int, p.y + 1)
    }

    /// No cell sees more than nine mines of either kind, and a cell of the
    /// game with a mine on it sees no more than eight hidden mines beyond
    /// the placed ones.
    pub proof fn lemma_discrepancy(self, p: Position)
        ensures
            -9 <= self.discrepancy(p) <= 9,
            self.playable(p) && self.cell(p).actual_mine ==> self.discrepancy(p) <= 8,
    {
        assert(-3 <= self.row_weight(p.x as int, p.y - 1) <= 3);
        assert(-3 <= self.row_weight(p.x as int, p.y + 1) <= 3);
        assert(-3 <= self.row_weight(p.x as int, p.y as int) <= 3);
        if self.playable(p) && self.cell(p).actual_mine {
            assert(self.weight(p.x as int, p.y as int) <= 0);
            assert(self.row_weight(p.x as int, p.y as int) <= 2);
        }
    }

    /// Whether every cell of the game sees as many placed mines as hidden ones.
    pub open spec fn solved(self) -> bool {
        forall|p: Position| self.playable(p) ==> #[trigger] self.discrepancy(p) == 0
    }

    /// Where the board hides mines.
    pub open spec fn expected_mines(self) -> Set<Position> {
        Set::new(|p: Position| self.in_grid(p) && self.cell(p).expected_mine)
    }

    /// Where the player has placed mines.
    pub open spec fn actual_mines(self) -> Set<Position> {
        Set::new(|p: Position| self.in_grid(p) && self.cell(p).actual_mine)
    }

    /// Where the wormholes are.
    pub open spec fn wormholes(self) -> Set<Position> {
        Set::new(|p: Position| self.in_grid(p) && self.cell(p).wormhole)
    }

    /// The board with the cell at `p` replaced by `cell`.
    pub open spec fn with_cell(self, p: Position, cell: Cell) -> BoardView {
        BoardView {
            cells: self.cells.update(
                p.y as int,
                self.cells[p.y as int].update(p.x as int, cell),
            ),
            region: self.region,
        }
    }

    /// Replacing a cell keeps the board in shape.
    pub proof fn lemma_with_cell_wf(self, p: Position, cell: Cell)
        requires
            self.wf(),
            self.in_grid(p),
        ensures
            self.with_cell(p, cell).wf(),
            self.with_cell(p, cell).width() == self.width(),
            self.with_cell(p, cell).height() == self.height(),
            self.with_cell(p, cell).cell(p) == cell,
            forall|q: Position|
                self.in_grid(q) && q != p ==> #[trigger] self.with_cell(p, cell).cell(q)
                    == self.cell(q),
    {
        let after = self.with_cell(p, cell);
        assert(self.cells[p.y as int].len() == self.width());
        assert forall|y: int| 0 <= y < after.cells.len() implies (#[trigger] after.cells[y]).len()
            == after.width() by {
            assert(self.cells[y].len() == self.width());
            assert(self.cells[0].len() == self.width());
        }
        assert(self.cells[0].len() == self.width());
    }

    /// The region in play can be listed position by position.
    pub proof fn lemma_region_countable(self)
        requires
            self.wf(),
        ensures
            self.region.countable(),
            self.grid().countable(),
            self.grid().size.width == self.width(),
            self.grid().size.height == self.height(),
            forall|p: Position| self.region.spec_contains(p) ==> #[trigger] self.in_grid(p),
    {
        let rw = self.region.size.width as int;
        let rh = self.region.size.height as int;
        let w = self.width();
        let h = self.height();
        assert(rw * rh <= w * h) by (nonlinear_arith)
            requires
                0 <= rw <= w,
                0 <= rh <= h,
        ;
    }

    /// The three sets of positions are finite.
    pub proof fn lemma_finite(self)
        requires
            self.wf(),
        ensures
            self.expected_mines().finite(),
            self.actual_mines().finite(),
            self.wormholes().finite(),
    {
        self.lemma_region_countable();
        let grid = self.grid();
        grid.lemma_positions();
        let all = grid.spec_positions().to_set();
        seq_to_set_is_finite(grid.spec_positions());
        assert(self.expected_mines().subset_of(all));
        assert(self.actual_mines().subset_of(all));
        assert(self.wormholes().subset_of(all));
        lemma_set_subset_finite(all, self.expected_mines());
        lemma_set_subset_finite(all, self.actual_mines());
        lemma_set_subset_finite(all, self.wormholes());
    }

    /// Placing or taking away a mine changes the placed mines by that one
    /// position and leaves the rest of the board as it was.
    pub proof fn lemma_toggled(self, p: Position)
        requires
            self.wf(),
            self.in_grid(p),
        ensures
            self.toggled(p).wf(),
            self.toggled(p).expected_mines() == self.expected_mines(),
            self.toggled(p).wormholes() == self.wormholes(),
            self.toggled(p).actual_mines() == if self.cell(p).actual_mine {
                self.actual_mines().remove(p)
            } else {
                self.actual_mines().insert(p)
            },
            self.toggled(p).actual_mines().len() == if self.cell(p).actual_mine {
                self.actual_mines().len() - 1
            } else {
                (self.actual_mines().len() + 1) as int
            },
    {
        let cell = Cell { actual_mine: !self.cell(p).actual_mine, ..self.cell(p) };
        let after = self.toggled(p);
        self.lemma_with_cell_wf(p, cell);
        self.lemma_finite();
        assert(after.expected_mines() =~= self.expected_mines());
        assert(after.wormholes() =~= self.wormholes());
        if self.cell(p).actual_mine {
            assert(after.actual_mines() =~= self.actual_mines().remove(p));
        } else {
            assert(after.actual_mines() =~= self.actual_mines().insert(p));
        }
    }

    /// The board after the player's mine at `p` is placed or taken away.
    pub open spec fn toggled(self, p: Position) -> BoardView {
        self.with_cell(p, Cell { actual_mine: !self.cell(p).actual_mine, ..self.cell(p) })
    }

    /// The board of `size` with nothing on it, all of it in play.
    pub open spec fn blank(size: Size) -> BoardView {
        BoardView {
            cells: Seq::new(
                size.height as nat,
                |y: int| Seq::new(size.width as nat, |x: int| Cell::blank()),
            ),
            region: Region { position: Position { x: 0, y: 0 }, size },
        }
    }

    /// A board with nothing on it is solved, and no mine is placed on it.
    pub proof fn lemma_blank(size: Size)
        ensures
            BoardView::blank(size).solved(),
            BoardView::blank(size).actual_mines() == Set::<Position>::empty(),
    {
        let blank = BoardView::blank(size);
        assert forall|p: Position| blank.playable(p) implies #[trigger] blank.discrepancy(p)
            == 0 by {
            assert(blank.row_weight(p.x as int, p.y - 1) == 0);
            assert(blank.row_weight(p.x as int, p.y as int) == 0);
            assert(blank.row_weight(p.x as int, p.y + 1) == 0);
        }
        assert(blank.actual_mines() =~= Set::<Position>::empty());
    }

    /// The board of `size` dealt from `order`: the first `wormholes` positions
    /// of `order` are wormholes, the next `mines` hide a mine, and the player
    /// has placed nothing.
    pub open spec fn dealt(
        size: Size,
        region: Region,
        order: Seq<Position>,
        wormholes: int,
        mines: int,
    ) -> BoardView {
        BoardView {
            cells: Seq::new(
                size.height as nat,
                |y: int|
                    Seq::new(
                        size.width as nat,
                        |x: int|
                            Cell {
                                wormhole: order.subrange(0, wormholes).contains(
                                    Position { x: x as i32, y: y as i32 },
                                ),
                                expected_mine: order.subrange(
                                    wormholes,
                                    wormholes + mines,
                                ).contains(Position { x: x as i32, y: y as i32 }),
                                actual_mine: false,
                            },
                    ),
            ),
            region,
        }
    }
}

/// The board: a grid of cells, of which a region is in play.
#[derive(Debug, Clone)]
pub struct Board {
    cells: Vec<Vec<Cell>>,
    region: Region,
}

impl View for Board {
    type V = BoardView;

    closed spec fn view(&self) -> BoardView {
        BoardView {
            cells: Seq::new(self.cells@.len(), |y: int| self.cells@[y]@),
            region: self.region,
        }
    }
}

impl Board {
    /// A board of `size` with nothing on it, all of it in play.
    pub fn blank(size: Size) -> (board: Board)
        ensures
            board@ == BoardView::blank(size),
    {
        let mut cells: Vec<Vec<Cell>> = Vec::new();
        let mut y: u32 = 0;
        while y < size.height
            invariant
                y <= size.height,
                cells@.len() == y,
                forall|j: int|
                    0 <= j < y ==> (#[trigger] cells@[j])@ == Seq::new(
                        size.width as nat,
                        |x: int| Cell::blank(),
                    ),
            decreases size.height - y,
        {
            let mut row: Vec<Cell> = Vec::new();
            let mut x: u32 = 0;
            while x < size.width
                invariant
                    x <= size.width,
                    row@ == Seq::new(x as nat, |x: int| Cell::blank()),
                decreases size.width - x,
            {
                row.push(Cell { expected_mine: false, actual_mine: false, wormhole: false });
                x += 1;
            }
            cells.push(row);
            y += 1;
        }
        let board = Board { cells, region: size.to_region() };
        assert(board@.cells == BoardView::blank(size).cells);
        board
    }

    /// The region in play.
    pub fn region(&self) -> (region: Region)
        ensures
            region == self@.region,
    {
        self.region
    }

    /// Puts the region `region` in play.
    pub(crate) fn set_region(&mut self, region: Region)
        ensures
            final(self)@ == (BoardView { region, ..old(self)@ }),
    {
        self.region = region;
    }

    /// The cell at `p`.
    pub fn cell(&self, p: Position) -> (cell: Cell)
        requires
            self@.wf(),
            self@.in_grid(p),
        ensures
            cell == self@.cell(p),
    {
        assert(self@.cells[p.y as int].len() == self@.width());
        self.cells[p.y as usize][p.x as usize]
    }

    /// Replaces the cell at `p`.
    pub(crate) fn set_cell(&mut self, p: Position, cell: Cell)
        requires
            old(self)@.wf(),
            old(self)@.in_grid(p),
        ensures
            final(self)@ == old(self)@.with_cell(p, cell),
            final(self)@.wf(),
    {
        assert(self@.cells[p.y as int].len() == self@.width());
        self.cells[p.y as usize][p.x as usize] = cell;
        assert(self@.cells =~~= old(self)@.with_cell(p, cell).cells);
        proof {
            old(self)@.lemma_with_cell_wf(p, cell);
        }
    }

    fn weight(&self, x: i64, y: i64) -> (w: isize)
        requires
            self@.wf(),
        ensures
            w == self@.weight(x as int, y as int),
    {
        if self.region.holds_at(x, y) {
            assert(self@.cells[y as int].len() == self@.width());
            let cell: Cell = self.cells[y as usize][x as usize];
            if cell.wormhole {
                0
            } else {
                let expected: isize = if cell.expected_mine {
                    1
                } else {
                    0
                };
                let actual: isize = if cell.actual_mine {
                    1
                } else {
                    0
                };
                expected - actual
            }
        } else {
            0
        }
    }

    fn row_weight(&self, x: i64, y: i64) -> (w: isize)
        requires
            self@.wf(),
            i32::MIN <= x <= i32::MAX,
        ensures
            w == self@.row_weight(x as int, y as int),
    {
        self.weight(x - 1, y) + self.weight(x, y) + self.weight(x + 1, y)
    }

    /// The hidden mines less the placed mines among the nine cells around and
    /// at `p`.
    pub fn surrounding_mines(&self, p: Position) -> (n: isize)
        requires
            self@.wf(),
        ensures
            n == self@.discrepancy(p),
    {
        let x: i64 = p.x as i64;
        let y: i64 = p.y as i64;
        self.row_weight(x, y - 1) + self.row_weight(x, y) + self.row_weight(x, y + 1)
    }

    /// Whether every cell of the game sees as many placed mines as hidden ones.
    pub fn is_solved(&self) -> (b: bool)
        requires
            self@.wf(),
        ensures
            b == self@.solved(),
    {
        proof {
            self@.lemma_region_countable();
            self@.region.lemma_positions();
        }
        let all = self.region.positions();
        let mut i: usize = 0;
        while i < all.len()
            invariant
                self@.wf(),
                all@ == self@.region.spec_positions(),
                i <= all.len(),
                forall|p: Position| self@.region.spec_contains(p) ==> #[trigger] self@.in_grid(p),
                forall|p: Position| #[trigger]
                    all@.contains(p) <==> self@.region.spec_contains(p),
                forall|j: int|
                    0 <= j < i && self@.playable(all@[j]) ==> self@.discrepancy(#[trigger] all@[j])
                        == 0,
            decreases all.len() - i,
        {
            let p: Position = all[i];
            assert(all@.contains(p));
            if !self.cell(p).wormhole && self.surrounding_mines(p) != 0 {
                return false;
            }
            i += 1;
        }
        assert forall|p: Position| self@.playable(p) implies #[trigger] self@.discrepancy(p)
            == 0 by {
            assert(all@.contains(p));
            let j = choose|j: int| 0 <= j < all@.len() && all@[j] == p;
            assert(self@.discrepancy(all@[j]) == 0);
        }
        true
    }

    /// Each position of the region in play, in order, with the count of
    /// hidden less placed mines around it.
    pub fn discrepancies(&self) -> (list: Vec<(Position, isize)>)
        requires
            self@.wf(),
        ensures
            list@.len() == self@.region.spec_positions().len(),
            forall|i: int|
                0 <= i < list@.len() ==> (#[trigger] list@[i]).0
                    == self@.region.spec_positions()[i] && list@[i].1 == self@.discrepancy(
                    self@.region.spec_positions()[i],
                ),
    {
        proof {
            self@.lemma_region_countable();
        }
        let all = self.region.positions();
        let mut list: Vec<(Position, isize)> = Vec::new();
        let mut i: usize = 0;
        while i < all.len()
            invariant
                self@.wf(),
                all@ == self@.region.spec_positions(),
                i <= all.len(),
                list@.len() == i,
                forall|j: int|
                    0 <= j < i ==> (#[trigger] list@[j]).0 == all@[j] && list@[j].1
                        == self@.discrepancy(all@[j]),
            decreases all.len() - i,
        {
            let p: Position = all[i];
            list.push((p, self.surrounding_mines(p)));
            i += 1;
        }
        list
    }

    /// A board of `size` with `region` in play, dealt from `order`: the first
    /// `wormholes` positions of `order` become wormholes, the next `mines`
    /// get a hidden mine.
    pub fn deal(size: Size, region: Region, order: &Vec<Position>, wormholes: usize, mines: usize) -> (board: Board)
        requires
            (BoardView { region, ..BoardView::blank(size) }).wf(),
            forall|i: int| 0 <= i < order@.len() ==> region.spec_contains(#[trigger] order@[i]),
            wormholes + mines <= order@.len(),
        ensures
            board@ == BoardView::dealt(size, region, order@, wormholes as int, mines as int),
            board@.wf(),
    {
        let mut board = Board::blank(size);
        board.set_region(region);
        proof {
            assert(board@.cells =~~= BoardView::dealt(size, region, order@, 0, 0).cells);
            board@.lemma_region_countable();
        }
        let mut i: usize = 0;
        while i < wormholes
            invariant
                i <= wormholes,
                wormholes + mines <= order@.len(),
                forall|i: int| 0 <= i < order@.len() ==> region.spec_contains(#[trigger] order@[i]),
                board@ == BoardView::dealt(size, region, order@, i as int, 0),
                board@.wf(),
            decreases wormholes - i,
        {
            let p: Position = order[i];
            proof {
                board@.lemma_region_countable();
                assert(region.spec_contains(order@[i as int]));
            }
            let cell: Cell = board.cell(p);
            board.set_cell(p, Cell { wormhole: true, ..cell });
            proof {
                let before = BoardView::dealt(size, region, order@, i as int, 0);
                let after = BoardView::dealt(size, region, order@, i + 1, 0);
                lemma_subrange_step(order@, 0, i as int);
                assert(order@.subrange(i as int, i as int) =~= order@.subrange(i + 1, i + 1));
                before.lemma_with_cell_wf(p, Cell { wormhole: true, ..cell });
                assert(board@.cells =~~= after.cells);
            }
            i += 1;
        }
        let n: usize = order.len();
        let mut j: usize = 0;
        while j < mines
            invariant
                j <= mines,
                n == order@.len(),
                wormholes + mines <= order@.len(),
                forall|i: int| 0 <= i < order@.len() ==> region.spec_contains(#[trigger] order@[i]),
                board@ == BoardView::dealt(size, region, order@, wormholes as int, j as int),
                board@.wf(),
            decreases mines - j,
        {
            let p: Position = order[wormholes + j];
            proof {
                board@.lemma_region_countable();
                assert(region.spec_contains(order@[wormholes + j]));
            }
            let cell: Cell = board.cell(p);
            board.set_cell(p, Cell { expected_mine: true, ..cell });
            proof {
                let before = BoardView::dealt(size, region, order@, wormholes as int, j as int);
                let after = BoardView::dealt(size, region, order@, wormholes as int, j + 1);
                lemma_subrange_step(order@, wormholes as int, wormholes + j);
                assert(order@.subrange(wormholes as int, wormholes + j + 1) == order@.subrange(
                    wormholes as int,
                    wormholes + (j + 1),
                ));
                before.lemma_with_cell_wf(p, Cell { expected_mine: true, ..cell });
                assert forall|y: int, x: int|
                    0 <= y < after.cells.len() && 0 <= x < after.cells[y].len() implies board@.cells[y][x]
                    == after.cells[y][x] by {
                    let q = Position { x: x as i32, y: y as i32 };
                    assert(before.in_grid(q));
                    if q != p {
                        assert(board@.cell(q) == before.cell(q));
                    }
                }
                assert(board@.cells =~~= after.cells);
            }
            j += 1;
        }
        board
    }
}

/// A rearrangement of the positions of `region` holds each position of the
/// region once, and nothing else.
pub proof fn lemma_rearranged(region: Region, order: Seq<Position>)
    requires
        region.countable(),
        order.to_multiset() == region.spec_positions().to_multiset(),
    ensures
        order.len() == region.area(),
        order.no_duplicates(),
        forall|p: Position| #[trigger] order.contains(p) <==> region.spec_contains(p),
{
    let all = region.spec_positions();
    region.lemma_positions();
    to_multiset_len(order);
    to_multiset_len(all);
    all.lemma_multiset_has_no_duplicates();
    order.lemma_multiset_has_no_duplicates_conv();
    assert forall|p: Position| #[trigger] order.contains(p) <==> region.spec_contains(p) by {
        to_multiset_contains(order, p);
        to_multiset_contains(all, p);
        assert(all.contains(p) <==> region.spec_contains(p));
    }
}

/// A board dealt from a rearrangement of the positions of its region has
/// exactly as many wormholes and hidden mines as were asked for, all in the
/// region, no cell with both, and no mine placed yet.
pub proof fn lemma_dealt(size: Size, region: Region, order: Seq<Position>, wormholes: int, mines: int)
    requires
        (BoardView { region, ..BoardView::blank(size) }).wf(),
        order.to_multiset() == region.spec_positions().to_multiset(),
        0 <= wormholes,
        0 <= mines,
        wormholes + mines <= region.area(),
    ensures
        ({
            let board = BoardView::dealt(size, region, order, wormholes, mines);
            &&& board.wf()
            &&& board.wormholes().finite()
            &&& board.wormholes().len() == wormholes
            &&& board.expected_mines().finite()
            &&& board.expected_mines().len() == mines
            &&& board.expected_mines().disjoint(board.wormholes())
            &&& board.actual_mines() == Set::<Position>::empty()
            &&& forall|p: Position| #[trigger]
                board.wormholes().contains(p) ==> region.spec_contains(p)
            &&& forall|p: Position| #[trigger]
                board.expected_mines().contains(p) ==> region.spec_contains(p)
        }),
{
    let empty = BoardView { region, ..BoardView::blank(size) };
    let board = BoardView::dealt(size, region, order, wormholes, mines);
    empty.lemma_region_countable();
    lemma_rearranged(region, order);
    assert(board.wf()) by {
        assert(board.width() == empty.width());
        assert(board.height() == empty.height());
    }
    let first = order.subrange(0, wormholes);
    let second = order.subrange(wormholes, wormholes + mines);
    assert forall|p: Position| #[trigger] first.contains(p) implies region.spec_contains(p) by {
        let k = choose|k: int| 0 <= k < first.len() && first[k] == p;
        assert(order[k] == p);
        assert(order.contains(p));
    }
    assert forall|p: Position| #[trigger] second.contains(p) implies region.spec_contains(p) by {
        let k = choose|k: int| 0 <= k < second.len() && second[k] == p;
        assert(order[wormholes + k] == p);
        assert(order.contains(p));
    }
    assert forall|p: Position| empty.in_grid(p) implies #[trigger] board.cell(p).wormhole
        == first.contains(p) && board.cell(p).expected_mine == second.contains(p) by {
        assert(Position { x: p.x as int as i32, y: p.y as int as i32 } == p);
    }
    assert(board.wormholes() =~= first.to_set()) by {
        assert forall|p: Position| board.wormholes().contains(p) <==> first.to_set().contains(
            p,
        ) by {
            if first.contains(p) {
                assert(region.spec_contains(p));
                assert(empty.in_grid(p));
            }
            if board.in_grid(p) {
                assert(empty.in_grid(p));
            }
        }
    }
    assert(board.expected_mines() =~= second.to_set()) by {
        assert forall|p: Position| board.expected_mines().contains(p) <==> second.to_set().contains(
            p,
        ) by {
            if second.contains(p) {
                assert(region.spec_contains(p));
                assert(empty.in_grid(p));
            }
            if board.in_grid(p) {
                assert(empty.in_grid(p));
            }
        }
    }
    assert(first.no_duplicates());
    assert(second.no_duplicates());
    first.unique_seq_to_set();
    second.unique_seq_to_set();
    seq_to_set_is_finite(first);
    seq_to_set_is_finite(second);
    assert(board.expected_mines().disjoint(board.wormholes())) by {
        assert forall|p: Position|
            !(board.expected_mines().contains(p) && board.wormholes().contains(p)) by {
            if first.contains(p) && second.contains(p) {
                let a = choose|k: int| 0 <= k < first.len() && first[k] == p;
                let b = choose|k: int| 0 <= k < second.len() && second[k] == p;
                assert(order[a] == order[wormholes + b]);
            }
        }
    }
    assert(board.actual_mines() =~= Set::<Position>::empty());
}

/// One item more in a stretch of a sequence adds that item to what the
/// stretch contains, and nothing else.
pub proof fn lemma_subrange_step(order: Seq<Position>, from: int, to: int)
    requires
        0 <= from <= to < order.len(),
    ensures
        forall|q: Position| #[trigger]
            order.subrange(from, to + 1).contains(q) <==> order.subrange(from, to).contains(q)
                || q == order[to],
{
    let short = order.subrange(from, to);
    let long = order.subrange(from, to + 1);
    assert forall|q: Position| #[trigger]
        long.contains(q) <==> short.contains(q) || q == order[to] by {
        if long.contains(q) {
            let k = choose|k: int| 0 <= k < long.len() && long[k] == q;
            if k < to - from {
                assert(short[k] == q);
            }
        }
        if short.contains(q) {
            let k = choose|k: int| 0 <= k < short.len() && short[k] == q;
            assert(long[k] == q);
        }
        if q == order[to] {
            assert(long[to - from] == q);
        }
    }
}

} // verus!
