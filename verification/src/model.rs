//! The game: the level, the board, the mines left to place and the clock.

use vstd::prelude::*;
use pagurus::random::StdRng;
use crate::board::{lemma_dealt, lemma_rearranged, Board, BoardView, Cell};
pub use crate::level::Level;
use crate::level::{HEIGHT, WIDTH};
use crate::random::{rng_default, rng_from_clock_seed, shuffle};
use crate::spatial::{Position, Region, Size};
use crate::time::Duration;

verus! {

/// How far the game has come.
#[derive(Debug, Clone, Copy, PartialEq, Eq, Structural)]
pub enum State {
    /// No game has been started yet.
    Initial,
    Playing,
    /// The puzzle is solved; `elapsed_time` is what the clock showed then.
    Won { elapsed_time: Duration },
}

impl Default for State {
    fn default() -> (state: Self)
        ensures
            state == State::Initial,
    {
        State::Initial
    }
}

/// The game as a value.
pub struct ModelView {
    pub level: Level,
    pub state: State,
    /// The mines that the player has yet to place.
    pub remaining_mines: usize,
    /// What the game clock showed when the game began.
    pub start_time: Duration,
    /// The time played, as of the last tick.
    pub elapsed_time: Duration,
    pub board: BoardView,
}

impl ModelView {
    /// The level is one that a board can be made for, the board is in
    /// shape, the player's mines lie on cells of the game and can be counted
    /// together with those left, and a game that counts as won is solved.
    pub open spec fn wf(self) -> bool {
        &&& self.level.valid()
        &&& self.board.wf()
        &&& self.remaining_mines + self.board.actual_mines().len() <= usize::MAX
        &&& forall|p: Position| #[trigger]
            self.board.actual_mines().contains(p) ==> self.board.playable(p)
        &&& self.state is Won ==> self.solved()
    }

    /// The board is one dealt for the level, and the mines add up: the
    /// region in play is the level's, the board hides the level's number of
    /// mines and has its number of wormholes, on cells of the region and never
    /// both on one; the player's mines and the mines left are together as
    /// many as the board hides.
    pub open spec fn balanced(self) -> bool {
        &&& self.board.region == self.level.region()
        &&& self.board.expected_mines().len() == self.level.spec_mines()
        &&& self.board.wormholes().len() == self.level.spec_wormholes()
        &&& self.board.expected_mines().disjoint(self.board.wormholes())
        &&& forall|p: Position| #[trigger]
            self.board.expected_mines().contains(p) ==> self.board.region.spec_contains(p)
        &&& forall|p: Position| #[trigger]
            self.board.wormholes().contains(p) ==> self.board.region.spec_contains(p)
        &&& self.remaining_mines + self.board.actual_mines().len() == self.level.spec_mines()
    }

    /// The level that a request for `requested` starts: a custom level, once
    /// set, stays.
    pub open spec fn effective_level(self, requested: Level) -> Level {
        if self.level is Custom {
            self.level
        } else {
            requested
        }
    }

    /// The game that begins at `game_time` when `requested` is asked for and
    /// the positions of the region come in the order `order`.
    pub open spec fn started(self, requested: Level, game_time: Duration, order: Seq<Position>) -> ModelView {
        let level = self.effective_level(requested);
        ModelView {
            level,
            state: State::Playing,
            remaining_mines: level.spec_mines(),
            start_time: game_time,
            elapsed_time: self.elapsed_time,
            board: BoardView::dealt(
                level.spec_board_size(),
                level.region(),
                order,
                level.spec_wormholes() as int,
                level.spec_mines() as int,
            ),
        }
    }

    /// Whether a click on `p` places or takes away a mine: a game is on, `p`
    /// is a cell of it, and there is a mine to take away or one left to place.
    pub open spec fn accepts(self, p: Position) -> bool {
        &&& self.state is Playing
        &&& self.board.playable(p)
        &&& self.board.cell(p).actual_mine || self.remaining_mines > 0
    }

    /// Whether the puzzle is solved: no mine is left to place, and every cell
    /// of the game sees as many placed mines as hidden ones.
    pub open spec fn solved(self) -> bool {
        self.remaining_mines == 0 && self.board.solved()
    }

    /// The game after a click on the cell `p`. A click that is not accepted
    /// changes nothing. One that is accepted places a mine on a free cell or
    /// takes the mine of the cell away, and wins the game if that solves the
    /// puzzle.
    pub open spec fn click(self, p: Position) -> ModelView {
        if !self.accepts(p) {
            self
        } else {
            let toggled = ModelView {
                remaining_mines: if self.board.cell(p).actual_mine {
                    (self.remaining_mines + 1) as usize
                } else {
                    (self.remaining_mines - 1) as usize
                },
                board: self.board.toggled(p),
                ..self
            };
            if toggled.solved() {
                ModelView { state: State::Won { elapsed_time: self.elapsed_time }, ..toggled }
            } else {
                toggled
            }
        }
    }

    /// A second click on the same cell undoes the first: the board is as it
    /// was, and so is the number of mines left to place. A click that wins the
    /// game is the exception, for nothing can be undone once the game is won.
    pub proof fn lemma_click_twice(self, p: Position)
        requires
            self.wf(),
            self.state is Playing ==> !(self.click(p).state is Won),
        ensures
            self.click(p).click(p).remaining_mines == self.remaining_mines,
            self.click(p).click(p).board == self.board,
            self.click(p).click(p).board.cell(p).actual_mine == self.board.cell(p).actual_mine,
    {
        if self.accepts(p) {
            self.lemma_click(p);
            self.board.lemma_region_countable();
            let once = self.click(p);
            assert(self.board.cells[p.y as int].len() == self.board.width());
            assert(once.accepts(p));
            assert(once.click(p).board.cells =~~= self.board.cells);
        }
    }

    /// A click keeps the game in shape, keeps the mines adding up, and
    /// changes nothing but the player's mines, the mines left and the state.
    pub proof fn lemma_click(self, p: Position)
        requires
            self.wf(),
        ensures
            self.click(p).wf(),
            self.balanced() ==> self.click(p).balanced(),
            self.accepts(p) && self.board.cell(p).actual_mine ==> self.remaining_mines < usize::MAX,
            self.click(p).remaining_mines + self.click(p).board.actual_mines().len()
                == self.remaining_mines + self.board.actual_mines().len(),
            self.click(p).board.region == self.board.region,
            self.click(p).level == self.level,
            forall|q: Position| #[trigger]
                self.click(p).board.playable(q) == self.board.playable(q),
    {
        if self.accepts(p) {
            self.board.lemma_region_countable();
            self.board.lemma_toggled(p);
            self.board.lemma_finite();
            let cell = self.board.cell(p);
            let next = self.click(p);
            self.board.lemma_with_cell_wf(p, Cell { actual_mine: !cell.actual_mine, ..cell });
            if cell.actual_mine {
                assert(self.board.actual_mines().contains(p));
            }
            assert forall|q: Position| #[trigger]
                next.board.playable(q) == self.board.playable(q) by {
                if self.board.region.spec_contains(q) {
                    assert(self.board.in_grid(q));
                    if q != p {
                        assert(next.board.cell(q) == self.board.cell(q));
                    }
                }
            }
            assert forall|q: Position| #[trigger]
                next.board.actual_mines().contains(q) implies next.board.playable(q) by {
                if q != p {
                    assert(next.board.cell(q) == self.board.cell(q));
                    assert(self.board.actual_mines().contains(q));
                }
            }
        }
    }
}

impl Level {
    /// The part of the board that the level plays on.
    pub open spec fn region(self) -> Region {
        Region {
            position: self.spec_offset(),
            size: Size { width: self.spec_width() as u32, height: self.spec_height() as u32 },
        }
    }

    /// The level's region lies on the level's board.
    pub proof fn lemma_region_on_board(self)
        requires
            self.valid(),
        ensures
            (BoardView { region: self.region(), ..BoardView::blank(self.spec_board_size()) }).wf(),
            BoardView::blank(self.spec_board_size()).wf(),
            self.region().area() == self.spec_width() * self.spec_height(),
    {
        let size = self.spec_board_size();
        let blank = BoardView::blank(size);
        if self is Custom {
            assert(size.width == self.spec_width() && size.height == self.spec_height());
        } else {
            assert(size.width * size.height == 480) by (nonlinear_arith)
                requires
                    size.width == 16,
                    size.height == 30,
            ;
        }
        assert(size.width >= 1 && size.height >= 1);
        assert(blank.width() == size.width);
        assert(blank.height() == size.height);
    }
}

/// The game, and the generator that deals its boards.
#[derive(Debug)]
pub struct Model {
    rng: StdRng,
    board: Board,
    remaining_mines: usize,
    start_time: Duration,
    elapsed_time: Duration,
    level: Level,
    state: State,
}

impl View for Model {
    type V = ModelView;

    closed spec fn view(&self) -> ModelView {
        ModelView {
            level: self.level,
            state: self.state,
            remaining_mines: self.remaining_mines,
            start_time: self.start_time,
            elapsed_time: self.elapsed_time,
            board: self.board@,
        }
    }
}

impl Default for Model {
    /// A model before its first game: the large preset, no board yet, the
    /// clock at zero.
    fn default() -> (model: Self)
        ensures
            model@.level == Level::Large,
            model@.state == State::Initial,
            model@.remaining_mines == 0,
            model@.start_time@ == 0,
            model@.elapsed_time@ == 0,
            model@.board == BoardView::blank(Size { width: 0, height: 0 }),
            model@.wf(),
    {
        let model = Model {
            rng: rng_default(),
            board: Board::blank(Size::from_wh(0, 0)),
            remaining_mines: 0,
            start_time: Duration::default(),
            elapsed_time: Duration::default(),
            level: Level::Large,
            state: State::Initial,
        };
        proof {
            BoardView::lemma_blank(Size { width: 0, height: 0 });
        }
        model
    }
}

impl Model {
    /// Seeds the generator from the wall clock and lays out the empty board
    /// of the presets.
    pub fn initialize(&mut self, unix_time: Duration)
        ensures
            final(self)@ == (ModelView {
                board: BoardView::blank(Size { width: WIDTH as u32, height: HEIGHT as u32 }),
                ..old(self)@
            }),
            old(self)@.wf() ==> final(self)@.wf(),
    {
        self.rng = rng_from_clock_seed(unix_time.as_secs(), unix_time.subsec_nanos());
        self.board = Board::blank(Size::from_wh(WIDTH as u32, HEIGHT as u32));
        proof {
            BoardView::lemma_blank(Size { width: WIDTH as u32, height: HEIGHT as u32 });
            assert(self@.board.wf()) by {
                assert(self@.board.width() == 16);
                assert(self@.board.height() == 30);
            }
        }
    }

    /// Makes `level` the level of the games to come, with an empty board of
    /// its size. A custom level set here stays: later requests for a preset
    /// start this level instead.
    pub fn set_custom_level(&mut self, level: Level)
        requires
            old(self)@.wf(),
            level.valid(),
        ensures
            final(self)@ == (ModelView {
                level,
                board: BoardView::blank(level.spec_board_size()),
                ..old(self)@
            }),
            final(self)@.wf(),
    {
        self.board = Board::blank(level.board_size());
        self.level = level;
        proof {
            level.lemma_region_on_board();
            BoardView::lemma_blank(level.spec_board_size());
        }
    }

    /// Starts a game at `game_time` on a board dealt from `order`: the level
    /// is `level`, unless a custom level is set; the first positions of `order`
    /// become the wormholes, the next ones hide the mines.
    pub fn start_game_with_order(&mut self, game_time: Duration, level: Level, order: &Vec<Position>)
        requires
            old(self)@.wf(),
            level.valid(),
            order@.to_multiset() == old(self)@.effective_level(
                level,
            ).region().spec_positions().to_multiset(),
        ensures
            final(self)@ == old(self)@.started(level, game_time, order@),
            final(self)@.wf(),
            final(self)@.balanced(),
            final(self)@.board.actual_mines() == Set::<Position>::empty(),
    {
        let level: Level = if self.level.is_custom() {
            self.level
        } else {
            level
        };
        let size: Size = level.board_size();
        let region: Region = Region::new(
            level.offset(),
            Size::from_wh(level.width() as u32, level.height() as u32),
        );
        proof {
            level.lemma_region_on_board();
            (BoardView { region, ..BoardView::blank(size) }).lemma_region_countable();
            lemma_rearranged(region, order@);
            assert forall|i: int| 0 <= i < order@.len() implies region.spec_contains(
                #[trigger] order@[i],
            ) by {
                assert(order@.contains(order@[i]));
            }
            lemma_dealt(
                size,
                region,
                order@,
                level.spec_wormholes() as int,
                level.spec_mines() as int,
            );
        }
        self.level = level;
        self.board = Board::deal(size, region, order, level.wormholes(), level.mines());
        self.start_time = game_time;
        self.remaining_mines = level.mines();
        self.state = State::Playing;
    }

    /// Starts a game at `game_time` on a freshly shuffled board of `level`,
    /// or of the custom level if one is set.
    pub fn start_game(&mut self, game_time: Duration, level: Level)
        requires
            old(self)@.wf(),
            level.valid(),
        ensures
            exists|order: Seq<Position>|
                order.to_multiset() == old(self)@.effective_level(
                    level,
                ).region().spec_positions().to_multiset() && final(self)@ == #[trigger] old(
                    self,
                )@.started(level, game_time, order),
            final(self)@.wf(),
            final(self)@.balanced(),
            final(self)@.board.actual_mines() == Set::<Position>::empty(),
    {
        let effective: Level = if self.level.is_custom() {
            self.level
        } else {
            level
        };
        let region: Region = Region::new(
            effective.offset(),
            Size::from_wh(effective.width() as u32, effective.height() as u32),
        );
        proof {
            effective.lemma_region_on_board();
            (BoardView {
                region,
                ..BoardView::blank(effective.spec_board_size())
            }).lemma_region_countable();
        }
        let mut order: Vec<Position> = region.positions();
        shuffle(&mut self.rng, &mut order);
        self.start_game_with_order(game_time, level, &order);
    }

    pub fn board_size(&self) -> (size: Size)
        requires
            self@.wf(),
        ensures
            size == self@.level.spec_board_size(),
    {
        self.level.board_size()
    }

    pub fn wormholes(&self) -> (n: usize)
        ensures
            n == self@.level.spec_wormholes(),
    {
        self.level.wormholes()
    }

    pub fn mines(&self) -> (n: usize)
        ensures
            n == self@.level.spec_mines(),
    {
        self.level.mines()
    }

    pub fn is_custom_mode(&self) -> (b: bool)
        ensures
            b == (self@.level is Custom),
    {
        self.level.is_custom()
    }

    pub fn state(&self) -> (state: State)
        ensures
            state == self@.state,
    {
        self.state
    }

    /// The region of the board that is in play.
    pub fn region(&self) -> (region: Region)
        ensures
            region == self@.board.region,
    {
        self.board.region()
    }

    pub fn has_wormhole(&self, p: Position) -> (b: bool)
        requires
            self@.wf(),
            self@.board.in_grid(p),
        ensures
            b == self@.board.cell(p).wormhole,
    {
        self.board.cell(p).wormhole
    }

    pub fn has_mine(&self, p: Position) -> (b: bool)
        requires
            self@.wf(),
            self@.board.in_grid(p),
        ensures
            b == self@.board.cell(p).actual_mine,
    {
        self.board.cell(p).actual_mine
    }

    /// Whether the board hides a mine at `p`: the solution, for whoever may
    /// see it.
    pub fn has_expected_mine(&self, p: Position) -> (b: bool)
        requires
            self@.wf(),
            self@.board.in_grid(p),
        ensures
            b == self@.board.cell(p).expected_mine,
    {
        self.board.cell(p).expected_mine
    }

    pub fn remaining_mines(&self) -> (n: usize)
        ensures
            n == self@.remaining_mines,
    {
        self.remaining_mines
    }

    /// Brings the time played up to `game_time`, while a game is on. Before
    /// the first game and after a win the time stands still.
    pub fn update_elapsed_time(&mut self, game_time: Duration)
        requires
            old(self)@.state is Playing ==> old(self)@.start_time@ <= game_time@,
        ensures
            final(self)@ == (ModelView { elapsed_time: final(self)@.elapsed_time, ..old(self)@ }),
            old(self)@.state is Playing ==> final(self)@.elapsed_time@ == game_time@ - old(
                self,
            )@.start_time@,
            !(old(self)@.state is Playing) ==> final(self)@.elapsed_time == old(
                self,
            )@.elapsed_time,
    {
        match self.state {
            State::Playing => {
                match game_time.checked_sub(self.start_time) {
                    Some(elapsed) => {
                        self.elapsed_time = elapsed;
                    },
                    None => {},
                }
            },
            _ => {},
        }
    }

    /// What the game clock showed when the game began.
    pub fn start_time(&self) -> (start: Duration)
        ensures
            start == self@.start_time,
    {
        self.start_time
    }

    pub fn elapsed_time(&self) -> (elapsed: Duration)
        ensures
            elapsed == self@.elapsed_time,
    {
        self.elapsed_time
    }

    /// Each position of the region in play, in order, with the count of
    /// hidden less placed mines around it.
    pub fn surrounding_mines(&self) -> (list: Vec<(Position, isize)>)
        requires
            self@.wf(),
        ensures
            list@.len() == self@.board.region.spec_positions().len(),
            forall|i: int|
                0 <= i < list@.len() ==> (#[trigger] list@[i]).0
                    == self@.board.region.spec_positions()[i] && list@[i].1
                    == self@.board.discrepancy(self@.board.region.spec_positions()[i]),
    {
        self.board.discrepancies()
    }

    /// Handles a click on the cell `position`.
    pub fn handle_click(&mut self, position: Position)
        requires
            old(self)@.wf(),
        ensures
            final(self)@ == old(self)@.click(position),
            final(self)@.wf(),
            old(self)@.balanced() ==> final(self)@.balanced(),
    {
        proof {
            self@.lemma_click(position);
            self@.board.lemma_region_countable();
        }
        match self.state {
            State::Playing => {},
            _ => {
                return ;
            },
        }
        if !self.board.region().contains(position) {
            return ;
        }
        let cell = self.board.cell(position);
        if cell.wormhole {
            return ;
        }
        if !cell.actual_mine && self.remaining_mines == 0 {
            return ;
        }
        self.board.set_cell(position, Cell { actual_mine: !cell.actual_mine, ..cell });
        if cell.actual_mine {
            self.remaining_mines += 1;
        } else {
            self.remaining_mines -= 1;
        }
        if self.remaining_mines == 0 && self.board.is_solved() {
            self.state = State::Won { elapsed_time: self.elapsed_time };
        }
    }
}

} // verus!
