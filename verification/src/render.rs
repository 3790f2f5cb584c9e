//! The picture of the game: which sprites go where. Putting them on the
//! screen is the host's affair.

use vstd::prelude::*;
use crate::asset::{Assets, CellSprites};
use crate::model::{Model, ModelView, State};
use crate::spatial::{Position, Region, Size};
use crate::time::{Duration, NANOS_PER_SEC};
use crate::view::{Button, Window, CELL_SIZE, HEADER_HEIGHT, MARGIN_SIZE};

verus! {

/// One sprite to draw.
#[derive(Debug, Clone, Copy, PartialEq, Eq, Structural)]
pub struct Draw {
    /// The region of the sprite sheet that holds the sprite.
    pub source: Region,
    /// The region of the window outside of which nothing is drawn.
    pub clip: Region,
    /// Where in the window the top-left corner of the sprite goes.
    pub origin: Position,
}

/// The pixel `(x, y)` of the window.
pub open spec fn pixel(x: int, y: int) -> Position {
    Position { x: x as i32, y: y as i32 }
}

/// How many digits the number takes.
pub open spec fn digits(number: nat) -> nat
    decreases number,
{
    if number < 10 {
        1
    } else {
        1 + digits(number / 10)
    }
}

/// The `k`-th power of ten.
pub open spec fn pow10(k: nat) -> nat
    decreases k,
{
    if k == 0 {
        1
    } else {
        10 * pow10((k - 1) as nat)
    }
}

/// A number below the `k`-th power of ten takes no more than `k` digits.
pub proof fn lemma_digits(number: nat, k: nat)
    requires
        k >= 1,
        number < pow10(k),
    ensures
        digits(number) <= k,
    decreases k,
{
    if number >= 10 {
        assert(pow10(1) == 10) by {
            reveal_with_fuel(pow10, 2);
        }
        if k >= 2 {
            lemma_digits(number / 10, (k - 1) as nat);
        }
    }
}

/// No number of the machine takes more than twenty digits.
pub proof fn lemma_digits_of_usize(number: usize)
    ensures
        1 <= digits(number as nat) <= 20,
{
    assert(pow10(20) == 100_000_000_000_000_000_000) by {
        reveal_with_fuel(pow10, 21);
    }
    lemma_digits(number as nat, 20);
}

/// The sprite of the digit `d`, large or small.
pub open spec fn digit_source(small: bool, d: int) -> Region {
    if small {
        Assets::small_digit(d)
    } else {
        Assets::digit(d)
    }
}

/// How far apart the digits of a number stand.
pub open spec fn digit_step(small: bool) -> int {
    if small {
        4
    } else {
        10
    }
}

/// The digits of `number`, the last one at `(x, y)` and each one before it a
/// step further left.
pub open spec fn number_draws(small: bool, clip: Region, x: int, y: int, number: nat) -> Seq<Draw>
    decreases number,
{
    let last = Draw { source: digit_source(small, (number % 10) as int), clip, origin: pixel(x, y) };
    if number < 10 {
        seq![last]
    } else {
        seq![last] + number_draws(small, clip, x - digit_step(small), y, number / 10)
    }
}

/// What a cell is drawn with, its top-left corner at `origin`. The ground
/// tells whether the cell sees more hidden mines than placed ones. On it goes
/// the player's mine, if there is one, and then what the cell lacks: the number
/// of hidden mines that it sees beyond the placed ones, or a warning if it
/// sees more placed mines than hidden ones. On a mine both are drawn small and
/// in the middle.
pub open spec fn cell_draws(clip: Region, origin: Position, discrepancy: int, has_mine: bool) -> Seq<
    Draw,
> {
    let ground = Draw {
        source: if discrepancy <= 0 {
            Assets::just()
        } else {
            Assets::over()
        },
        clip,
        origin,
    };
    let middle = pixel(origin.x + 8, origin.y + 8);
    if has_mine {
        let mine = Draw { source: Assets::mine(), clip, origin };
        if discrepancy > 0 {
            seq![ground, mine, Draw { source: Assets::mini_number(discrepancy), clip, origin: middle }]
        } else if discrepancy < 0 {
            seq![ground, mine, Draw { source: Assets::mini_warning(), clip, origin: middle }]
        } else {
            seq![ground, mine]
        }
    } else if discrepancy > 0 {
        seq![ground, Draw { source: Assets::number(discrepancy), clip, origin }]
    } else if discrepancy < 0 {
        seq![ground, Draw { source: Assets::warning(), clip, origin }]
    } else {
        seq![ground]
    }
}

impl Button {
    /// Whether the button can be drawn as it is: it is high enough for the
    /// offset of its state, and the offset does not push it off the pixel
    /// coordinates.
    pub open spec fn drawable(self) -> bool {
        &&& self.state.spec_render_offset() <= self.region.size.height
        &&& self.region.position.y + self.state.spec_render_offset() <= i32::MAX
    }

    /// Whether the button can be drawn whatever happens to it: it is high
    /// enough to be drawn pressed, unless it is a button without height,
    /// which nothing can press, and it is not at the far end of the pixel
    /// coordinates.
    pub open spec fn sound(self) -> bool {
        &&& self.region.position.y + 2 <= i32::MAX
        &&& self.region.size.height >= 2 || (self.region.size.height == 0 && self.state is Normal)
    }

    /// The button drawn with the sprite at `source`: where its state puts
    /// it, and cut off at the bottom of its place.
    pub open spec fn draw(self, source: Region) -> Draw {
        Draw {
            source,
            clip: self.spec_render_region(),
            origin: self.spec_render_region().position,
        }
    }

    /// The drawing of the button with the sprite at `source`.
    pub fn render(&self, source: Region) -> (draw: Draw)
        requires
            self.drawable(),
        ensures
            draw == self.draw(source),
    {
        let region: Region = self.render_region();
        Draw { source, clip: region, origin: region.position }
    }
}

impl ModelView {
    /// The seconds that the header shows: those of the game that is on or
    /// was won, and no more than 999.
    pub open spec fn shown_seconds(self) -> nat {
        let elapsed = match self.state {
            State::Won { elapsed_time } => elapsed_time,
            _ => self.elapsed_time,
        };
        if elapsed@ / (NANOS_PER_SEC as nat) > 999 {
            999
        } else {
            elapsed@ / (NANOS_PER_SEC as nat)
        }
    }
}

impl Window {
    /// Whether the game can be drawn: its level can be laid out, and so can
    /// every cell of the region in play.
    pub open spec fn paintable(model: ModelView) -> bool {
        &&& Window::displayable(model.level)
        &&& CELL_SIZE * model.board.region.end_x() + 2 * MARGIN_SIZE <= i32::MAX
        &&& CELL_SIZE * model.board.region.end_y() + 3 * MARGIN_SIZE + HEADER_HEIGHT <= i32::MAX
    }

    /// Whether the buttons can be drawn, now and after any event, and there
    /// is room for the numbers on the custom start button.
    pub open spec fn drawable(self) -> bool {
        &&& self.help_button.sound()
        &&& self.start_8x15_button.sound()
        &&& self.start_16x30_button.sound()
        &&& self.start_16x30_with_wormhole_button.sound()
        &&& self.start_custom_button.sound()
        &&& i32::MIN + 200 <= self.start_custom_button.region.position.x + 5
        &&& self.start_custom_button.region.position.x + 17 <= i32::MAX
        &&& self.start_custom_button.region.position.y + 16 <= i32::MAX
    }

    /// The whole window as a region.
    pub open spec fn spec_window_region(model: ModelView) -> Region {
        Region { position: Position { x: 0, y: 0 }, size: Window::spec_window_size(model.level) }
    }

    /// The header: its ground, and the numbers on it. A custom level shows
    /// the number of its wormholes, and before the first game the number of
    /// its mines. Once a game has begun, the header shows the seconds played
    /// and the mines left to place.
    pub open spec fn header_draws(model: ModelView) -> Seq<Draw> {
        let custom = model.level is Custom;
        let clip = Window::spec_header_region(model.level);
        let left = clip.position.x as int;
        let top = clip.position.y + 5;
        let ground = seq![Draw { source: Assets::header(custom), clip, origin: clip.position }];
        let level = if custom {
            number_draws(false, clip, left + 164, top, model.level.spec_wormholes() as nat) + (
            if model.state is Initial {
                number_draws(false, clip, left + 104, top, model.level.spec_mines() as nat)
            } else {
                Seq::<Draw>::empty()
            })
        } else {
            Seq::<Draw>::empty()
        };
        if model.state is Initial {
            ground + level
        } else {
            ground + level + number_draws(false, clip, left + 44, top, model.shown_seconds())
                + number_draws(
                false,
                clip,
                if custom {
                    left + 104
                } else {
                    left + 94
                },
                top,
                model.remaining_mines as nat,
            )
        }
    }

    /// The buttons in use: the help button, and either the three preset
    /// buttons or the custom start button with the size of the board on it.
    pub open spec fn button_draws(self, model: ModelView) -> Seq<Draw> {
        let help = seq![self.help_button.draw(Assets::button(3))];
        if model.level is Custom {
            let place = self.start_custom_button.spec_render_region().position;
            let clip = Window::spec_window_region(model);
            help + seq![self.start_custom_button.draw(Assets::custom_button())] + number_draws(
                true,
                clip,
                place.x + 5,
                place.y + 14,
                model.level.spec_board_size().width as nat,
            ) + number_draws(
                true,
                clip,
                place.x + 17,
                place.y + 14,
                model.level.spec_board_size().height as nat,
            )
        } else {
            help + seq![
                self.start_8x15_button.draw(Assets::button(0)),
                self.start_16x30_button.draw(Assets::button(1)),
                self.start_16x30_with_wormhole_button.draw(Assets::button(2)),
            ]
        }
    }

    /// Where in the window the top-left corner of the cell `p` is.
    pub open spec fn cell_origin(p: Position) -> Position {
        pixel(
            MARGIN_SIZE + CELL_SIZE * p.x,
            2 * MARGIN_SIZE + HEADER_HEIGHT + CELL_SIZE * p.y,
        )
    }

    /// The cells `cells` of the board, in order. Wormholes are left out.
    pub open spec fn board_draws(model: ModelView, cells: Seq<Position>) -> Seq<Draw>
        decreases cells.len(),
    {
        if cells.len() == 0 {
            Seq::<Draw>::empty()
        } else {
            let p = cells.last();
            Window::board_draws(model, cells.drop_last()) + (if model.board.cell(p).wormhole {
                Seq::<Draw>::empty()
            } else {
                cell_draws(
                    Window::spec_board_region(model.level),
                    Window::cell_origin(p),
                    model.board.discrepancy(p),
                    model.board.cell(p).actual_mine,
                )
            })
        }
    }

    /// The picture of the game: the header, the buttons, and the cells of
    /// the region in play.
    pub open spec fn scene(self, model: ModelView) -> Seq<Draw> {
        Window::header_draws(model) + self.button_draws(model) + Window::board_draws(
            model,
            model.board.region.spec_positions(),
        )
    }

    /// The whole window as a region.
    pub fn window_region(&self, model: &Model) -> (region: Region)
        requires
            model@.wf(),
            Window::displayable(model@.level),
        ensures
            region == Window::spec_window_region(model@),
    {
        self.window_size(model).to_region()
    }

    /// The picture of the game.
    pub fn render(&self, model: &Model) -> (draws: Vec<Draw>)
        requires
            model@.wf(),
            Window::paintable(model@),
            self.drawable(),
        ensures
            draws@ == self.scene(model@),
    {
        let mut draws: Vec<Draw> = Vec::new();
        self.render_header(&mut draws, model);
        self.render_buttons(&mut draws, model);
        self.render_board(&mut draws, model);
        draws
    }

    fn render_header(&self, draws: &mut Vec<Draw>, model: &Model)
        requires
            model@.wf(),
            Window::displayable(model@.level),
        ensures
            final(draws)@ == old(draws)@ + Window::header_draws(model@),
    {
        let clip: Region = self.header_region(model);
        let custom: bool = model.is_custom_mode();
        let left: i32 = clip.position.x;
        let top: i32 = clip.position.y + 5;
        draws.push(Draw { source: Assets::header_sprite(custom), clip, origin: clip.position });
        if custom {
            render_number(draws, false, clip, Position::from_xy(left + 164, top), model.wormholes());
            match model.state() {
                State::Initial => {
                    render_number(
                        draws,
                        false,
                        clip,
                        Position::from_xy(left + 84 + 20, top),
                        model.mines(),
                    );
                },
                _ => {},
            }
        }
        let elapsed_time: Duration = match model.state() {
            State::Initial => {
                assert(draws@ == old(draws)@ + Window::header_draws(model@));
                return ;
            },
            State::Playing => model.elapsed_time(),
            State::Won { elapsed_time } => elapsed_time,
        };
        let secs: u64 = elapsed_time.as_secs();
        let elapsed: usize = if secs > 999 {
            999
        } else {
            secs as usize
        };
        render_number(draws, false, clip, Position::from_xy(left + 24 + 10 * 2, top), elapsed);
        let x: i32 = if custom {
            left + 84 + 10 + 10
        } else {
            left + 84 + 10
        };
        render_number(draws, false, clip, Position::from_xy(x, top), model.remaining_mines());
        assert(draws@ == old(draws)@ + Window::header_draws(model@));
    }

    fn render_buttons(&self, draws: &mut Vec<Draw>, model: &Model)
        requires
            model@.wf(),
            Window::displayable(model@.level),
            self.drawable(),
        ensures
            final(draws)@ == old(draws)@ + self.button_draws(model@),
    {
        let sprites: [Region; 4] = Assets::button_sprites();
        draws.push(self.help_button.render(sprites[3]));
        if model.is_custom_mode() {
            draws.push(self.start_custom_button.render(Assets::custom_button_sprite()));
            let clip: Region = self.window_region(model);
            let place: Position = self.start_custom_button.render_region().position;
            let offset: Position = place.move_x(5).move_y(14);
            render_number(draws, true, clip, offset, model.board_size().width as usize);
            render_number(draws, true, clip, offset.move_x(12), model.board_size().height as usize);
        } else {
            draws.push(self.start_8x15_button.render(sprites[0]));
            draws.push(self.start_16x30_button.render(sprites[1]));
            draws.push(self.start_16x30_with_wormhole_button.render(sprites[2]));
        }
        assert(draws@ == old(draws)@ + self.button_draws(model@));
    }

    /// Adds to `draws` what the cell `position` is drawn with, which sees
    /// `mines` hidden mines beyond the placed ones.
    fn render_cell_at(
        draws: &mut Vec<Draw>,
        model: &Model,
        sprites: &CellSprites,
        position: Position,
        mines: isize,
    )
        requires
            model@.wf(),
            Window::paintable(model@),
            Assets::cells(*sprites),
            model@.board.region.spec_contains(position),
            mines == model@.board.discrepancy(position),
        ensures
            final(draws)@ == old(draws)@ + (if model@.board.cell(position).wormhole {
                Seq::<Draw>::empty()
            } else {
                cell_draws(
                    Window::spec_board_region(model@.level),
                    Window::cell_origin(position),
                    model@.board.discrepancy(position),
                    model@.board.cell(position).actual_mine,
                )
            }),
    {
        proof {
            model@.board.lemma_region_countable();
            model@.board.lemma_discrepancy(position);
            let right = model@.board.region.end_x();
            let bottom = model@.board.region.end_y();
            assert(CELL_SIZE * position.x <= CELL_SIZE * right && CELL_SIZE * position.y
                <= CELL_SIZE * bottom && 0 <= CELL_SIZE * position.x && 0 <= CELL_SIZE
                * position.y) by (nonlinear_arith)
                requires
                    0 <= position.x < right,
                    0 <= position.y < bottom,
                    CELL_SIZE == 16,
            ;
        }
        if model.has_wormhole(position) {
            assert(draws@ == old(draws)@ + Seq::<Draw>::empty());
            return ;
        }
        let clip: Region = Region::new(
            Position::from_xy(MARGIN_SIZE as i32, (2 * MARGIN_SIZE + HEADER_HEIGHT) as i32),
            Size::from_wh(CELL_SIZE * model.board_size().width, CELL_SIZE * model.board_size().height),
        );
        let origin: Position = Position::from_xy(
            (MARGIN_SIZE + CELL_SIZE * position.x as u32) as i32,
            (2 * MARGIN_SIZE + HEADER_HEIGHT + CELL_SIZE * position.y as u32) as i32,
        );
        render_cell(draws, sprites, clip, origin, mines, model.has_mine(position));
    }

    fn render_board(&self, draws: &mut Vec<Draw>, model: &Model)
        requires
            model@.wf(),
            Window::paintable(model@),
        ensures
            final(draws)@ == old(draws)@ + Window::board_draws(
                model@,
                model@.board.region.spec_positions(),
            ),
    {
        let sprites: CellSprites = Assets::cell_sprites();
        let cells: Vec<(Position, isize)> = model.surrounding_mines();
        let ghost all = model@.board.region.spec_positions();
        proof {
            model@.board.lemma_region_countable();
            model@.board.region.lemma_positions();
        }
        let mut i: usize = 0;
        assert(all.take(0) == Seq::<Position>::empty());
        while i < cells.len()
            invariant
                model@.wf(),
                Window::paintable(model@),
                Assets::cells(sprites),
                all == model@.board.region.spec_positions(),
                cells@.len() == all.len(),
                i <= cells@.len(),
                forall|p: Position| #[trigger]
                    all.contains(p) ==> model@.board.region.spec_contains(p),
                forall|j: int|
                    0 <= j < cells@.len() ==> (#[trigger] cells@[j]).0 == all[j] && cells@[j].1
                        == model@.board.discrepancy(all[j]),
                draws@ == old(draws)@ + Window::board_draws(model@, all.take(i as int)),
            decreases cells.len() - i,
        {
            let position: Position = cells[i].0;
            let mines: isize = cells[i].1;
            proof {
                assert(all.take(i + 1).drop_last() == all.take(i as int));
                assert(all.take(i + 1).last() == position);
                assert(all.contains(all[i as int]));
            }
            Window::render_cell_at(draws, model, &sprites, position, mines);
            i += 1;
        }
        assert(all.take(cells@.len() as int) == all);
    }
}

/// Adds the digits of `number` to `draws`, the last one at `offset`.
pub fn render_number(draws: &mut Vec<Draw>, small: bool, clip: Region, offset: Position, number: usize)
    requires
        i32::MIN + 200 <= offset.x,
    ensures
        final(draws)@ == old(draws)@ + number_draws(
            small,
            clip,
            offset.x as int,
            offset.y as int,
            number as nat,
        ),
{
    let sprites: [Region; 10] = if small {
        Assets::small_digit_sprites()
    } else {
        Assets::digit_sprites()
    };
    let step: i32 = if small {
        4
    } else {
        10
    };
    let mut x: i32 = offset.x;
    let mut rest: usize = number;
    let ghost mut drawn: nat = 0;
    proof {
        lemma_digits_of_usize(number);
    }
    while rest >= 10
        invariant
            step == digit_step(small),
            forall|d: int| 0 <= d <= 9 ==> #[trigger] sprites@[d] == digit_source(small, d),
            i32::MIN + 200 <= offset.x,
            x == offset.x - step * drawn,
            drawn + digits(rest as nat) == digits(number as nat),
            digits(number as nat) <= 20,
            old(draws)@ + number_draws(small, clip, offset.x as int, offset.y as int, number as nat)
                == draws@ + number_draws(small, clip, x as int, offset.y as int, rest as nat),
        decreases rest,
    {
        draws.push(Draw { source: sprites[rest % 10], clip, origin: Position { x, y: offset.y } });
        rest = rest / 10;
        x = x - step;
        proof {
            drawn = drawn + 1;
        }
    }
    draws.push(Draw { source: sprites[rest % 10], clip, origin: Position { x, y: offset.y } });
}

/// Adds to `draws` what the cell at `origin` is drawn with.
pub fn render_cell(
    draws: &mut Vec<Draw>,
    sprites: &CellSprites,
    clip: Region,
    origin: Position,
    mines: isize,
    has_mine: bool,
)
    requires
        Assets::cells(*sprites),
        -9 <= mines <= 9,
        has_mine ==> mines <= 8,
        origin.x + 8 <= i32::MAX,
        origin.y + 8 <= i32::MAX,
    ensures
        final(draws)@ == old(draws)@ + cell_draws(clip, origin, mines as int, has_mine),
{
    if mines <= 0 {
        draws.push(Draw { source: sprites.just, clip, origin });
    } else {
        draws.push(Draw { source: sprites.over, clip, origin });
    }
    if has_mine {
        draws.push(Draw { source: sprites.mine, clip, origin });
        let middle: Position = Position::from_xy(origin.x + 8, origin.y + 8);
        if mines > 0 {
            draws.push(Draw { source: sprites.mini_numbers[mines as usize - 1], clip, origin: middle });
        } else if mines < 0 {
            draws.push(Draw { source: sprites.mini_warning, clip, origin: middle });
        }
    } else if mines > 0 {
        draws.push(Draw { source: sprites.numbers[mines as usize - 1], clip, origin });
    } else if mines < 0 {
        draws.push(Draw { source: sprites.warning, clip, origin });
    }
    assert(draws@ == old(draws)@ + cell_draws(clip, origin, mines as int, has_mine));
}

} // verus!
