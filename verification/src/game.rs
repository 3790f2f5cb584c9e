//! The game as the host drives it: events in, things for the host to do out.

use vstd::prelude::*;
use vstd::string::StringSliceAdditionalSpecFns;
use vstd::utf8::{decode_utf8, encode_utf8_decode_utf8, valid_utf8};
use std::collections::VecDeque;
use crate::event::Event;
use crate::level::{Level, LevelError};
use crate::board::BoardView;
use crate::model::{Model, ModelView, State};
use crate::query::{chars_of, is_word};
use crate::render::Draw;
use crate::spatial::{Position, Size};
use crate::tag::{
    RENDERING_TIMEOUT,
    START_16X30_TIMEOUT,
    START_16X30_WITH_WORMHOLE_TIMEOUT,
    START_8X15_TIMEOUT,
};
use crate::time::Duration;
use crate::view::{Window, CELL_SIZE};

verus! {

/// Frames per second.
pub const FPS: u64 = 30;

/// The time from one frame to the next, in microseconds.
pub const RENDER_TIMEOUT_MICROS: u64 = 1_000_000 / FPS;

/// Something that the player has asked for and that only the host can do.
#[derive(Debug, Clone, Copy, PartialEq, Eq, Structural)]
pub enum Action {
    OpenHelp,
}

/// Something for the host to do after an event.
#[derive(Debug, Clone, Copy, PartialEq, Eq, Structural)]
pub enum Effect {
    /// Make the window fit a canvas of this size.
    ResizeWindow(Size),
    /// Get a fresh video frame for the window as it is now.
    InitVideo,
    /// Draw the game.
    Render,
    /// Set a timer that runs out after `micros` microseconds and reports `tag`.
    SetTimeout { tag: u32, micros: u64 },
}

/// Why a query or a command was not carried out.
#[derive(Debug, Clone, Copy, PartialEq, Eq, Structural)]
pub enum GameError {
    /// The game answers no query of that name.
    UnknownQuery,
    /// The game takes no command of that name.
    UnknownCommand,
    /// The data of the command is no text.
    InvalidText,
    /// The query string asks for a level that cannot be.
    Level(LevelError),
}

/// The game and its window as a value.
pub struct GameView {
    pub window: Window,
    pub model: ModelView,
    /// What the player has asked for and the host has not fetched yet,
    /// oldest first.
    pub actions: Seq<Action>,
}

impl GameView {
    /// The game is in shape, and it and the buttons of the window can be
    /// drawn.
    pub open spec fn wf(self) -> bool {
        self.model.wf() && Window::paintable(self.model) && self.window.drawable()
    }

    /// The level that the timer `tag` starts, if it starts one.
    pub open spec fn level_of(tag: u32) -> Option<Level> {
        if tag == START_8X15_TIMEOUT {
            Some(Level::Small)
        } else if tag == START_16X30_TIMEOUT {
            Some(Level::Large)
        } else if tag == START_16X30_WITH_WORMHOLE_TIMEOUT {
            Some(Level::LargeWithWormhole)
        } else {
            None
        }
    }

    /// The order in which the positions of a board may come when `event`
    /// arrives: where the event starts a game, any rearrangement of the
    /// positions of the region of the level that starts.
    pub open spec fn may_deal(self, event: Event, order: Seq<Position>) -> bool {
        match event {
            Event::Timeout(tag) => match GameView::level_of(tag) {
                Some(level) => order.to_multiset() == self.model.effective_level(
                    level,
                ).region().spec_positions().to_multiset(),
                None => true,
            },
            _ => true,
        }
    }

    /// The game after `event` has been handed to where it belongs, and what
    /// the host is to do for that. A resized window wants a fresh frame and a
    /// picture; the frame timer wants a picture and its next round; a start
    /// timer starts the game of its level at `game_time` on a board dealt from
    /// `order`, and wants a picture; every other event goes to the window.
    pub open spec fn routed(self, game_time: Duration, event: Event, order: Seq<Position>) -> (
        GameView,
        Seq<Effect>,
    ) {
        match event {
            Event::WindowResized(_) => (self, seq![Effect::InitVideo, Effect::Render]),
            Event::Timeout(tag) => if tag == RENDERING_TIMEOUT {
                (
                    self,
                    seq![
                        Effect::Render,
                        Effect::SetTimeout { tag: RENDERING_TIMEOUT, micros: RENDER_TIMEOUT_MICROS },
                    ],
                )
            } else {
                match GameView::level_of(tag) {
                    Some(level) => (
                        GameView { model: self.model.started(level, game_time, order), ..self },
                        seq![Effect::Render],
                    ),
                    None => (self.shown(event), Seq::empty()),
                }
            },
            _ => (self.shown(event), Seq::empty()),
        }
    }

    /// The game after the window has seen `event`.
    pub open spec fn shown(self, event: Event) -> GameView {
        GameView {
            window: self.window.after(event, self.model).0,
            model: self.window.after(event, self.model).1,
            ..self
        }
    }

    /// The timers that the start buttons set, for those that were clicked.
    pub open spec fn start_timers(self) -> Seq<Effect> {
        (if self.window.start_8x15_button.state is Clicked {
            seq![Effect::SetTimeout { tag: START_8X15_TIMEOUT, micros: 0 }]
        } else {
            Seq::<Effect>::empty()
        }) + (if self.window.start_16x30_button.state is Clicked {
            seq![Effect::SetTimeout { tag: START_16X30_TIMEOUT, micros: 0 }]
        } else {
            Seq::<Effect>::empty()
        }) + (if self.window.start_16x30_with_wormhole_button.state is Clicked {
            seq![Effect::SetTimeout { tag: START_16X30_WITH_WORMHOLE_TIMEOUT, micros: 0 }]
        } else {
            Seq::<Effect>::empty()
        }) + (if self.window.start_custom_button.state is Clicked {
            seq![Effect::SetTimeout { tag: START_16X30_WITH_WORMHOLE_TIMEOUT, micros: 0 }]
        } else {
            Seq::<Effect>::empty()
        })
    }

    /// The game after the buttons have been asked for their clicks: every
    /// clicked button is normal again, and a click on the help button is on
    /// the list of what the player has asked for.
    pub open spec fn polled(self) -> GameView {
        GameView {
            window: Window {
                help_button: self.window.help_button.released(),
                start_8x15_button: self.window.start_8x15_button.released(),
                start_16x30_button: self.window.start_16x30_button.released(),
                start_16x30_with_wormhole_button: self.window.start_16x30_with_wormhole_button.released(),
                start_custom_button: self.window.start_custom_button.released(),
                ..self.window
            },
            model: self.model,
            actions: if self.window.help_button.state is Clicked {
                self.actions.push(Action::OpenHelp)
            } else {
                self.actions
            },
        }
    }

    /// The game after `event`, and what the host is to do: the event is
    /// handed on, then the buttons are asked for their clicks.
    pub open spec fn after(self, game_time: Duration, event: Event, order: Seq<Position>) -> (
        GameView,
        Seq<Effect>,
    ) {
        let (next, effects) = self.routed(game_time, event, order);
        (next.polled(), effects + next.start_timers())
    }
}

/// The game and its window.
#[derive(Debug)]
pub struct Game {
    window: Window,
    model: Model,
    action_queue: VecDeque<Action>,
}

impl View for Game {
    type V = GameView;

    closed spec fn view(&self) -> GameView {
        GameView { window: self.window, model: self.model@, actions: self.action_queue@ }
    }
}

impl Default for Game {
    fn default() -> (game: Self)
        ensures
            game@.window == Window::initial(),
            game@.model.level == Level::Large,
            game@.model.state == State::Initial,
            game@.model.remaining_mines == 0,
            game@.model.start_time@ == 0,
            game@.model.elapsed_time@ == 0,
            game@.model.board == BoardView::blank(Size { width: 0, height: 0 }),
            game@.actions == Seq::<Action>::empty(),
            game@.wf(),
    {
        Game { window: Window::default(), model: Model::default(), action_queue: VecDeque::new() }
    }
}

/// Calls `std::str::from_utf8`. As its documentation says, the bytes are a
/// text exactly if they are valid UTF-8, and the text is then made of these
/// very bytes.
#[verifier::external_body]
fn text_of(data: &[u8]) -> (r: Option<&str>)
    ensures
        r is Some <==> valid_utf8(data@),
        r matches Some(text) ==> text.spec_bytes() == data@,
{
    std::str::from_utf8(data).ok()
}

impl Game {
    pub fn model(&self) -> (model: &Model)
        ensures
            model@ == self@.model,
    {
        &self.model
    }

    pub fn window(&self) -> (window: &Window)
        ensures
            *window == self@.window,
    {
        &self.window
    }

    /// Seeds the game from the wall clock and lays out the window.
    pub fn initialize(&mut self, unix_time: Duration) -> (effects: Vec<Effect>)
        requires
            old(self)@.wf(),
        ensures
            final(self)@ == (GameView {
                window: old(self)@.window.laid_out(),
                model: ModelView {
                    board: BoardView::blank(Size { width: 16, height: 30 }),
                    ..old(self)@.model
                },
                ..old(self)@
            }),
            final(self)@.wf(),
            effects@ == seq![
                Effect::ResizeWindow(Window::spec_window_size(old(self)@.model.level)),
                Effect::SetTimeout { tag: RENDERING_TIMEOUT, micros: RENDER_TIMEOUT_MICROS },
            ],
    {
        self.model.initialize(unix_time);
        self.window.load_assets(&self.model);
        let mut effects: Vec<Effect> = Vec::new();
        effects.push(Effect::ResizeWindow(self.window.window_size(&self.model)));
        effects.push(Effect::SetTimeout { tag: RENDERING_TIMEOUT, micros: RENDER_TIMEOUT_MICROS });
        proof {
            let right = self@.model.board.region.end_x();
            let bottom = self@.model.board.region.end_y();
            assert(CELL_SIZE * right == 256 && CELL_SIZE * bottom == 480) by (nonlinear_arith)
                requires
                    right == 16,
                    bottom == 30,
                    CELL_SIZE == 16,
            ;
        }
        effects
    }

    /// Brings the clock of the game up to `game_time`, and says what the
    /// picture of the game is made of.
    pub fn render(&mut self, game_time: Duration) -> (draws: Vec<Draw>)
        requires
            old(self)@.wf(),
            old(self)@.model.state is Playing ==> old(self)@.model.start_time@ <= game_time@,
        ensures
            final(self)@.wf(),
            draws@ == final(self)@.window.scene(final(self)@.model),
            final(self)@ == (GameView {
                model: ModelView {
                    elapsed_time: final(self)@.model.elapsed_time,
                    ..old(self)@.model
                },
                ..old(self)@
            }),
            old(self)@.model.state is Playing ==> final(self)@.model.elapsed_time@ == game_time@
                - old(self)@.model.start_time@,
            !(old(self)@.model.state is Playing) ==> final(self)@.model.elapsed_time == old(
                self,
            )@.model.elapsed_time,
    {
        self.model.update_elapsed_time(game_time);
        self.window.render(&self.model)
    }

    /// Starts the game of `level` and asks for a picture.
    fn start(&mut self, game_time: Duration, level: Level) -> (effects: Vec<Effect>)
        requires
            old(self)@.wf(),
            Window::displayable(level),
        ensures
            exists|order: Seq<Position>|
                order.to_multiset() == old(self)@.model.effective_level(
                    level,
                ).region().spec_positions().to_multiset() && final(self)@ == (GameView {
                    model: #[trigger] old(self)@.model.started(level, game_time, order),
                    ..old(self)@
                }),
            effects@ == seq![Effect::Render],
            final(self)@.wf(),
    {
        self.model.start_game(game_time, level);
        let mut effects: Vec<Effect> = Vec::new();
        effects.push(Effect::Render);
        effects
    }

    /// Hands `event` to where it belongs.
    fn route(&mut self, game_time: Duration, event: Event) -> (effects: Vec<Effect>)
        requires
            old(self)@.wf(),
        ensures
            exists|order: Seq<Position>|
                old(self)@.may_deal(event, order) && (final(self)@, effects@) == #[trigger] old(
                    self,
                )@.routed(game_time, event, order),
            final(self)@.wf(),
    {
        let ghost none: Seq<Position> = Seq::empty();
        match event {
            Event::WindowResized(_) => {
                let mut effects: Vec<Effect> = Vec::new();
                effects.push(Effect::InitVideo);
                effects.push(Effect::Render);
                assert((self@, effects@) == old(self)@.routed(game_time, event, none));
                effects
            },
            Event::Timeout(tag) => {
                if tag == RENDERING_TIMEOUT {
                    let mut effects: Vec<Effect> = Vec::new();
                    effects.push(Effect::Render);
                    effects.push(
                        Effect::SetTimeout { tag: RENDERING_TIMEOUT, micros: RENDER_TIMEOUT_MICROS },
                    );
                    assert((self@, effects@) == old(self)@.routed(game_time, event, none));
                    effects
                } else if tag == START_8X15_TIMEOUT {
                    let effects: Vec<Effect> = self.start(game_time, Level::Small);
                    proof {
                        let order = choose|order: Seq<Position>|
                            order.to_multiset() == old(self)@.model.effective_level(
                                Level::Small,
                            ).region().spec_positions().to_multiset() && self@ == (GameView {
                                model: #[trigger] old(self)@.model.started(
                                    Level::Small,
                                    game_time,
                                    order,
                                ),
                                ..old(self)@
                            });
                        assert(old(self)@.may_deal(event, order));
                        assert((self@, effects@) == old(self)@.routed(game_time, event, order));
                    }
                    effects
                } else if tag == START_16X30_TIMEOUT {
                    let effects: Vec<Effect> = self.start(game_time, Level::Large);
                    proof {
                        let order = choose|order: Seq<Position>|
                            order.to_multiset() == old(self)@.model.effective_level(
                                Level::Large,
                            ).region().spec_positions().to_multiset() && self@ == (GameView {
                                model: #[trigger] old(self)@.model.started(
                                    Level::Large,
                                    game_time,
                                    order,
                                ),
                                ..old(self)@
                            });
                        assert(old(self)@.may_deal(event, order));
                        assert((self@, effects@) == old(self)@.routed(game_time, event, order));
                    }
                    effects
                } else if tag == START_16X30_WITH_WORMHOLE_TIMEOUT {
                    let effects: Vec<Effect> = self.start(game_time, Level::LargeWithWormhole);
                    proof {
                        let order = choose|order: Seq<Position>|
                            order.to_multiset() == old(self)@.model.effective_level(
                                Level::LargeWithWormhole,
                            ).region().spec_positions().to_multiset() && self@ == (GameView {
                                model: #[trigger] old(self)@.model.started(
                                    Level::LargeWithWormhole,
                                    game_time,
                                    order,
                                ),
                                ..old(self)@
                            });
                        assert(old(self)@.may_deal(event, order));
                        assert((self@, effects@) == old(self)@.routed(game_time, event, order));
                    }
                    effects
                } else {
                    self.window.handle_event(event, &mut self.model);
                    let effects: Vec<Effect> = Vec::new();
                    assert((self@, effects@) == old(self)@.routed(game_time, event, none));
                    effects
                }
            },
            _ => {
                self.window.handle_event(event, &mut self.model);
                let effects: Vec<Effect> = Vec::new();
                assert((self@, effects@) == old(self)@.routed(game_time, event, none));
                effects
            },
        }
    }

    /// Asks the buttons for their clicks, and adds to `effects` the timers
    /// that the clicked start buttons set.
    fn poll(&mut self, effects: &mut Vec<Effect>)
        ensures
            final(self)@ == old(self)@.polled(),
            final(effects)@ == old(effects)@ + old(self)@.start_timers(),
    {
        if self.window.take_help_button_clicked() {
            self.action_queue.push_back(Action::OpenHelp);
        }
        if self.window.take_start_8x15_button_clicked() {
            effects.push(Effect::SetTimeout { tag: START_8X15_TIMEOUT, micros: 0 });
        }
        if self.window.take_start_16x30_button_clicked() {
            effects.push(Effect::SetTimeout { tag: START_16X30_TIMEOUT, micros: 0 });
        }
        if self.window.take_start_16x30_with_wormhole_button_clicked() {
            effects.push(Effect::SetTimeout { tag: START_16X30_WITH_WORMHOLE_TIMEOUT, micros: 0 });
        }
        if self.window.take_start_custom_button_clicked() {
            effects.push(Effect::SetTimeout { tag: START_16X30_WITH_WORMHOLE_TIMEOUT, micros: 0 });
        }
        assert(self@.window == old(self)@.polled().window);
        assert(effects@ == old(effects)@ + old(self)@.start_timers());
    }

    /// Handles an event of the host that arrives at `game_time`, and says
    /// what the host is to do.
    pub fn handle_event(&mut self, game_time: Duration, event: Event) -> (effects: Vec<Effect>)
        requires
            old(self)@.wf(),
        ensures
            exists|order: Seq<Position>|
                old(self)@.may_deal(event, order) && (final(self)@, effects@) == #[trigger] old(
                    self,
                )@.after(game_time, event, order),
            final(self)@.wf(),
    {
        let mut effects: Vec<Effect> = self.route(game_time, event);
        let ghost order = choose|order: Seq<Position>|
            old(self)@.may_deal(event, order) && (self@, effects@) == #[trigger] old(
                self,
            )@.routed(game_time, event, order);
        self.poll(&mut effects);
        assert((self@, effects@) == old(self)@.after(game_time, event, order));
        effects
    }

    /// Answers the query `name`. The one query is `nextAction`: it hands out
    /// the oldest thing that the player has asked for, if there is one.
    pub fn query(&mut self, name: &str) -> (r: Result<Option<Action>, GameError>)
        ensures
            name@ != "nextAction"@ ==> r == Err::<Option<Action>, GameError>(
                GameError::UnknownQuery,
            ) && final(self)@ == old(self)@,
            name@ == "nextAction"@ ==> final(self)@ == (GameView {
                actions: if old(self)@.actions.len() > 0 {
                    old(self)@.actions.drop_first()
                } else {
                    old(self)@.actions
                },
                ..old(self)@
            }) && r == Ok::<Option<Action>, GameError>(
                if old(self)@.actions.len() > 0 {
                    Some(old(self)@.actions[0])
                } else {
                    None
                },
            ),
    {
        let letters = chars_of(name);
        if !is_word(&letters, 0, letters.len(), "nextAction") {
            assert(letters@.subrange(0, letters@.len() as int) == letters@);
            return Err(GameError::UnknownQuery);
        }
        assert(letters@.subrange(0, letters@.len() as int) == letters@);
        let action = self.action_queue.pop_front();
        assert(old(self)@.actions.len() > 0 ==> self@.actions == old(self)@.actions.drop_first());
        Ok(action)
    }

    /// Carries out the command `name` on `data`. The one command is
    /// `setQueryString`: where the text `data` asks for a custom level, that
    /// level is set, and the host is to fit the window to it.
    pub fn command(&mut self, name: &str, data: &[u8]) -> (r: Result<Vec<Effect>, GameError>)
        requires
            old(self)@.wf(),
        ensures
            final(self)@.wf(),
            match GameView::commanded(name@, data@) {
                Ok(Some(level)) => {
                    &&& final(self)@ == (GameView {
                        model: ModelView {
                            level,
                            board: BoardView::blank(level.spec_board_size()),
                            ..old(self)@.model
                        },
                        ..old(self)@
                    })
                    &&& r is Ok
                    &&& r->Ok_0@ == seq![
                        Effect::ResizeWindow(Window::spec_window_size(level)),
                        Effect::InitVideo,
                    ]
                },
                Ok(None) => {
                    &&& final(self)@ == old(self)@
                    &&& r is Ok
                    &&& r->Ok_0@ == Seq::<Effect>::empty()
                },
                Err(e) => {
                    &&& final(self)@ == old(self)@
                    &&& r is Err
                    &&& r->Err_0 == e
                },
            },
    {
        let letters = chars_of(name);
        assert(letters@.subrange(0, letters@.len() as int) == letters@);
        if !is_word(&letters, 0, letters.len(), "setQueryString") {
            return Err(GameError::UnknownCommand);
        }
        let qs: &str = match text_of(data) {
            Some(text) => text,
            None => {
                return Err(GameError::InvalidText);
            },
        };
        proof {
            encode_utf8_decode_utf8(qs@);
        }
        match Level::from_qs(qs) {
            Err(e) => Err(GameError::Level(e)),
            Ok(None) => Ok(Vec::new()),
            Ok(Some(level)) => {
                self.model.set_custom_level(level);
                let mut effects: Vec<Effect> = Vec::new();
                effects.push(Effect::ResizeWindow(self.window.window_size(&self.model)));
                effects.push(Effect::InitVideo);
                Ok(effects)
            },
        }
    }
}

impl GameView {
    /// What the command `name` on `data` asks for: the level to set, if any.
    pub open spec fn commanded(name: Seq<char>, data: Seq<u8>) -> Result<Option<Level>, GameError> {
        if name != "setQueryString"@ {
            Err(GameError::UnknownCommand)
        } else if !valid_utf8(data) {
            Err(GameError::InvalidText)
        } else {
            match Level::spec_from_qs(decode_utf8(data)) {
                Ok(level) => Ok(level),
                Err(e) => Err(GameError::Level(e)),
            }
        }
    }
}

} // verus!
