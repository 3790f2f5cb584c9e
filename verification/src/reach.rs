//! What the player can reach by clicking: when a game can be won at all.

use vstd::prelude::*;
use vstd::set_lib::lemma_len_subset;
use crate::board::{BoardView, Cell};
use crate::model::ModelView;
use crate::spatial::Position;

verus! {

impl BoardView {
    /// The board with the player's mines on the positions of `placement`
    /// and nowhere else.
    pub open spec fn placed(self, placement: Set<Position>) -> BoardView {
        BoardView {
            cells: Seq::new(
                self.cells.len(),
                |y: int|
                    Seq::new(
                        self.cells[y].len(),
                        |x: int|
                            Cell {
                                actual_mine: placement.contains(
                                    Position { x: x as i32, y: y as i32 },
                                ),
                                ..self.cells[y][x]
                            },
                    ),
            ),
            region: self.region,
        }
    }

    /// Placing the player's mines where they are changes nothing.
    pub proof fn lemma_placed_own(self)
        requires
            self.wf(),
        ensures
            self.placed(self.actual_mines()) == self,
    {
        let same = self.placed(self.actual_mines());
        assert forall|y: int, x: int|
            0 <= y < self.cells.len() && 0 <= x < self.cells[y].len() implies same.cells[y][x]
            == self.cells[y][x] by {
            let p = Position { x: x as i32, y: y as i32 };
            assert(self.cells[y].len() == self.width());
            assert(self.in_grid(p));
            assert(self.cell(p) == self.cells[y][x]);
        }
        assert(same.cells =~~= self.cells);
    }

    /// Where the player's mines were before does not matter to a placement.
    pub proof fn lemma_placed_after_toggle(self, p: Position, placement: Set<Position>)
        requires
            self.wf(),
            self.in_grid(p),
        ensures
            self.toggled(p).placed(placement) == self.placed(placement),
    {
        assert(self.cells[p.y as int].len() == self.width());
        assert(self.toggled(p).placed(placement).cells =~~= self.placed(placement).cells);
    }

}

impl ModelView {
    /// The mines of the player: those placed and those left to place.
    pub open spec fn budget(self) -> int {
        self.remaining_mines + self.board.actual_mines().len()
    }

    /// The game after clicks on the cells `cells`, in order.
    pub open spec fn clicks(self, cells: Seq<Position>) -> ModelView
        decreases cells.len(),
    {
        if cells.len() == 0 {
            self
        } else {
            self.clicks(cells.drop_last()).click(cells.last())
        }
    }

    /// Whether some clicks win the game.
    pub open spec fn can_win(self) -> bool {
        exists|cells: Seq<Position>| (#[trigger] self.clicks(cells)).state is Won
    }

    /// Whether `placement` solves the puzzle: it puts all the player's mines
    /// on cells of the game, and every cell of the game then sees as many
    /// placed mines as hidden ones.
    pub open spec fn solved_by(self, placement: Set<Position>) -> bool {
        &&& placement.finite()
        &&& placement.len() == self.budget()
        &&& forall|p: Position| placement.contains(p) ==> #[trigger] self.board.playable(p)
        &&& self.board.placed(placement).solved()
    }

    /// One click changes nothing of what a placement of the player's mines
    /// would make of the board.
    pub proof fn lemma_step(self, p: Position, placement: Set<Position>)
        requires
            self.wf(),
        ensures
            self.click(p).board.placed(placement) == self.board.placed(placement),
    {
        if self.accepts(p) {
            self.board.lemma_region_countable();
            self.board.lemma_placed_after_toggle(p, placement);
        }
    }

    /// Any clicks keep a game in shape and the player's mines as many as they
    /// were, and change nothing but the player's mines, the mines left and the
    /// state.
    pub proof fn lemma_clicks(self, cells: Seq<Position>, placement: Set<Position>)
        requires
            self.wf(),
        ensures
            self.clicks(cells).wf(),
            self.clicks(cells).budget() == self.budget(),
            self.clicks(cells).board.region == self.board.region,
            self.clicks(cells).level == self.level,
            self.clicks(cells).board.placed(placement) == self.board.placed(placement),
            forall|q: Position| #[trigger]
                self.clicks(cells).board.playable(q) == self.board.playable(q),
        decreases cells.len(),
    {
        if cells.len() > 0 {
            let before = self.clicks(cells.drop_last());
            self.lemma_clicks(cells.drop_last(), placement);
            before.lemma_click(cells.last());
            before.lemma_step(cells.last(), placement);
            assert forall|q: Position| #[trigger]
                self.clicks(cells).board.playable(q) == self.board.playable(q) by {
                assert(before.click(cells.last()).board.playable(q) == before.board.playable(q));
                assert(before.board.playable(q) == self.board.playable(q));
            }
        }
    }

    /// Clicking `first` and then `rest` is clicking them all in order.
    pub proof fn lemma_clicks_after_click(self, first: Position, rest: Seq<Position>)
        ensures
            self.clicks(seq![first] + rest) == self.click(first).clicks(rest),
        decreases rest.len(),
    {
        let all = seq![first] + rest;
        if rest.len() == 0 {
            assert(all.drop_last() == Seq::<Position>::empty());
            assert(all.last() == first);
            assert(self.clicks(all.drop_last()) == self);
        } else {
            assert(all.drop_last() == seq![first] + rest.drop_last());
            assert(all.last() == rest.last());
            self.lemma_clicks_after_click(first, rest.drop_last());
        }
    }

    /// A game that some clicks win has a placement that solves it: the
    /// player's mines as they lie when the game is won.
    pub proof fn lemma_won_by_placement(self, cells: Seq<Position>) -> (placement: Set<Position>)
        requires
            self.wf(),
            self.clicks(cells).state is Won,
        ensures
            self.solved_by(placement),
    {
        let end = self.clicks(cells);
        let placement = end.board.actual_mines();
        self.lemma_clicks(cells, placement);
        end.board.lemma_finite();
        end.board.lemma_placed_own();
        assert forall|p: Position| placement.contains(p) implies #[trigger] self.board.playable(
            p,
        ) by {
            assert(end.board.playable(p) == self.board.playable(p));
        }
        placement
    }

    /// A game in which a placement solves the puzzle, and the player has a
    /// mine at all, can be won by clicks: take away the mines that the
    /// placement does not have, then place those that it has.
    pub proof fn lemma_placement_wins(self, placement: Set<Position>)
        requires
            self.wf(),
            self.state is Playing,
            self.budget() > 0,
            self.solved_by(placement),
        ensures
            self.can_win(),
        decreases
            self.board.actual_mines().difference(placement).len() + placement.difference(
                self.board.actual_mines(),
            ).len(),
    {
        let actual = self.board.actual_mines();
        self.board.lemma_finite();
        self.board.lemma_region_countable();
        let surplus = actual.difference(placement);
        let missing = placement.difference(actual);
        assert(surplus.finite() && missing.finite());
        if surplus.len() > 0 {
            let p = surplus.choose();
            assert(surplus.contains(p));
            assert(actual.contains(p) && !placement.contains(p));
            assert(self.board.playable(p));
            assert(self.accepts(p));
            let next = self.click(p);
            self.lemma_click(p);
            self.lemma_step(p, placement);
            self.board.lemma_toggled(p);
            assert(next.board.actual_mines() == actual.remove(p));
            assert(next.remaining_mines > 0);
            assert(next.state is Playing);
            assert(next.board.actual_mines().difference(placement) =~= surplus.remove(p));
            assert(placement.difference(next.board.actual_mines()) =~= missing);
            assert(next.solved_by(placement)) by {
                assert forall|q: Position| placement.contains(q) implies #[trigger] next.board.playable(
                    q,
                ) by {
                    assert(self.board.playable(q));
                    assert(next.board.playable(q) == self.board.playable(q));
                }
            }
            next.lemma_placement_wins(placement);
            let rest = choose|cells: Seq<Position>| (#[trigger] next.clicks(cells)).state is Won;
            self.lemma_clicks_after_click(p, rest);
            assert(self.clicks(seq![p] + rest).state is Won);
        } else if missing.len() > 0 {
            let p = missing.choose();
            assert(missing.contains(p));
            assert(placement.contains(p) && !actual.contains(p));
            assert(self.board.playable(p));
            assert(surplus =~= Set::<Position>::empty()) by {
                surplus.lemma_len0_is_empty();
            }
            assert(actual.subset_of(placement.remove(p))) by {
                assert forall|q: Position| actual.contains(q) implies placement.remove(p).contains(
                    q,
                ) by {
                    if !placement.contains(q) {
                        assert(surplus.contains(q));
                    }
                }
            }
            lemma_len_subset(actual, placement.remove(p));
            assert(self.remaining_mines > 0);
            assert(self.accepts(p));
            let next = self.click(p);
            self.lemma_click(p);
            self.lemma_step(p, placement);
            self.board.lemma_toggled(p);
            if next.state is Won {
                assert(seq![p].drop_last() == Seq::<Position>::empty());
                assert(self.clicks(seq![p].drop_last()) == self);
                assert(self.clicks(seq![p]) == next);
            } else {
                assert(next.board.actual_mines() == actual.insert(p));
                assert(next.board.actual_mines().difference(placement) =~= surplus);
                assert(placement.difference(next.board.actual_mines()) =~= missing.remove(p));
                assert(next.solved_by(placement)) by {
                    assert forall|q: Position| placement.contains(q) implies #[trigger] next.board.playable(
                        q,
                    ) by {
                        assert(self.board.playable(q));
                        assert(next.board.playable(q) == self.board.playable(q));
                    }
                }
                next.lemma_placement_wins(placement);
                let rest = choose|cells: Seq<Position>|
                    (#[trigger] next.clicks(cells)).state is Won;
                self.lemma_clicks_after_click(p, rest);
                assert(self.clicks(seq![p] + rest).state is Won);
            }
        } else {
            // The player's mines lie as the placement has them, and still
            // the game is on: taking one away and putting it back wins it.
            surplus.lemma_len0_is_empty();
            missing.lemma_len0_is_empty();
            assert(actual =~= placement) by {
                assert forall|q: Position| actual.contains(q) <==> placement.contains(q) by {
                    if actual.contains(q) && !placement.contains(q) {
                        assert(surplus.contains(q));
                    }
                    if placement.contains(q) && !actual.contains(q) {
                        assert(missing.contains(q));
                    }
                }
            }
            self.board.lemma_placed_own();
            let p = actual.choose();
            assert(actual.len() > 0) by {
                if self.remaining_mines > 0 {
                    assert(placement.len() == self.remaining_mines + actual.len());
                }
            }
            assert(actual.contains(p));
            assert(self.board.playable(p));
            assert(self.accepts(p));
            let once = self.click(p);
            self.lemma_click(p);
            self.lemma_step(p, placement);
            self.board.lemma_toggled(p);
            assert(once.remaining_mines > 0);
            assert(once.state is Playing);
            assert(once.accepts(p));
            let twice = once.click(p);
            self.lemma_click_twice(p);
            assert(twice.state is Won);
            self.lemma_clicks_after_click(p, seq![p]);
            assert(seq![p].drop_last() == Seq::<Position>::empty());
            assert(once.clicks(seq![p].drop_last()) == once);
            assert(once.clicks(seq![p]) == twice);
            assert(self.clicks(seq![p] + seq![p]).state is Won);
        }
    }

    /// A game that is on, and in which the player has a mine at all, can be
    /// won exactly if some placement of the player's mines solves the puzzle.
    pub proof fn lemma_winnable(self)
        requires
            self.wf(),
            self.state is Playing,
            self.budget() > 0,
        ensures
            self.can_win() <==> exists|placement: Set<Position>| #[trigger]
                self.solved_by(placement),
    {
        if self.can_win() {
            let cells = choose|cells: Seq<Position>| (#[trigger] self.clicks(cells)).state is Won;
            let placement = self.lemma_won_by_placement(cells);
            assert(self.solved_by(placement));
        }
        if exists|placement: Set<Position>| #[trigger] self.solved_by(placement) {
            let placement = choose|placement: Set<Position>| #[trigger]
                self.solved_by(placement);
            self.lemma_placement_wins(placement);
        }
    }

    /// In a game dealt for its level, placing the player's mines where the
    /// board hides its own solves the puzzle.
    pub proof fn lemma_hidden_mines_solve(self)
        requires
            self.wf(),
            self.balanced(),
        ensures
            self.solved_by(self.board.expected_mines()),
    {
        let hidden = self.board.expected_mines();
        let after = self.board.placed(hidden);
        self.board.lemma_finite();
        self.board.lemma_region_countable();
        assert forall|p: Position| hidden.contains(p) implies #[trigger] self.board.playable(p) by {
            assert(!self.board.wormholes().contains(p));
        }
        assert forall|x: int, y: int| #[trigger] after.weight(x, y) == 0 by {
            if after.region.holds(x, y) {
                let p = Position { x: x as i32, y: y as i32 };
                assert(self.board.region.spec_contains(p));
                assert(self.board.in_grid(p));
                assert(self.board.cells[y].len() == self.board.width());
                assert(hidden.contains(p) == self.board.cell(p).expected_mine);
            }
        }
        assert forall|p: Position| after.playable(p) implies #[trigger] after.discrepancy(p)
            == 0 by {
            assert(after.row_weight(p.x as int, p.y - 1) == 0);
            assert(after.row_weight(p.x as int, p.y as int) == 0);
            assert(after.row_weight(p.x as int, p.y + 1) == 0);
        }
    }

    /// A game that is on, dealt for a level with at least one mine, can be
    /// won.
    pub proof fn lemma_dealt_game_can_be_won(self)
        requires
            self.wf(),
            self.balanced(),
            self.state is Playing,
            self.level.spec_mines() > 0,
        ensures
            self.can_win(),
    {
        self.lemma_hidden_mines_solve();
        self.lemma_placement_wins(self.board.expected_mines());
    }

    /// A game dealt for a level without mines is solved as it is dealt:
    /// there is nothing to place.
    pub proof fn lemma_no_mines_is_solved(self)
        requires
            self.wf(),
            self.balanced(),
            self.level.spec_mines() == 0,
        ensures
            self.solved(),
    {
        self.lemma_hidden_mines_solve();
        self.board.lemma_finite();
        let hidden = self.board.expected_mines();
        assert(self.board.actual_mines() =~= hidden) by {
            self.board.actual_mines().lemma_len0_is_empty();
            hidden.lemma_len0_is_empty();
        }
        self.board.lemma_placed_own();
    }
}

} // verus!
