//! The window: where things are, and what the pointer does to them.

use vstd::prelude::*;
use crate::event::{Event, MouseEvent};
use crate::level::Level;
use crate::model::{Model, ModelView};
use crate::spatial::{Position, Region, Size};

verus! {

/// The gap between the window's edge, the header and the board, in pixels.
pub const MARGIN_SIZE: u32 = 3;

/// The side of a cell, in pixels.
pub const CELL_SIZE: u32 = 16;

/// The height of the header, in pixels.
pub const HEADER_HEIGHT: u32 = 24;

/// What a button is doing.
#[derive(Debug, Clone, Copy, PartialEq, Eq, Structural)]
pub enum ButtonState {
    Normal,
    /// The pointer is over the button.
    Hover,
    /// The pointer went down on the button and has not left it.
    Pressed,
    /// The button was pressed and released; nobody has asked yet.
    Clicked,
}

impl Default for ButtonState {
    fn default() -> (state: Self)
        ensures
            state == ButtonState::Normal,
    {
        ButtonState::Normal
    }
}

impl ButtonState {
    /// The state after a pointer event. An event outside the button makes it
    /// normal whatever it was. Inside, a move makes a normal button hover, a
    /// press makes any button pressed, and a release makes a pressed button
    /// clicked; every other event leaves the state as it was.
    pub open spec fn after(self, event: MouseEvent, inside: bool) -> ButtonState {
        if !inside {
            ButtonState::Normal
        } else {
            match event {
                MouseEvent::Move { .. } => if self is Normal {
                    ButtonState::Hover
                } else {
                    self
                },
                MouseEvent::Down { .. } => ButtonState::Pressed,
                MouseEvent::Up { .. } => if self is Pressed {
                    ButtonState::Clicked
                } else {
                    self
                },
            }
        }
    }

    pub open spec fn spec_render_offset(self) -> u32 {
        match self {
            ButtonState::Normal => 0,
            ButtonState::Hover => 1,
            ButtonState::Pressed => 2,
            ButtonState::Clicked => 2,
        }
    }

    /// How many pixels lower than its place the button is drawn.
    #[verifier::when_used_as_spec(spec_render_offset)]
    pub fn render_offset(self) -> (offset: u32)
        ensures
            offset == self.spec_render_offset(),
    {
        match self {
            ButtonState::Normal => 0,
            ButtonState::Hover => 1,
            ButtonState::Pressed => 2,
            ButtonState::Clicked => 2,
        }
    }
}

/// A button: its place in the window and what it is doing.
#[derive(Debug, Clone, Copy, PartialEq, Eq, Structural)]
pub struct Button {
    pub region: Region,
    pub state: ButtonState,
}

impl Default for Button {
    fn default() -> (button: Self)
        ensures
            button == (Button { region: Region::default_value(), state: ButtonState::Normal }),
    {
        Button { region: Region::default(), state: ButtonState::Normal }
    }
}

impl Button {
    pub fn new(region: Region) -> (button: Self)
        ensures
            button == (Button { region, state: ButtonState::Normal }),
    {
        Button { region, state: ButtonState::Normal }
    }

    /// The button after `event`.
    pub open spec fn after(self, event: Event) -> Button {
        match event {
            Event::Mouse(mouse) => Button {
                region: self.region,
                state: self.state.after(mouse, self.region.spec_contains(mouse.spec_position())),
            },
            _ => self,
        }
    }

    /// The button after it was asked for its click: normal if it was clicked.
    pub open spec fn released(self) -> Button {
        if self.state is Clicked {
            Button { state: ButtonState::Normal, ..self }
        } else {
            self
        }
    }

    /// The button after the events `events`, in order.
    pub open spec fn after_all(self, events: Seq<Event>) -> Button
        decreases events.len(),
    {
        if events.len() == 0 {
            self
        } else {
            self.after_all(events.drop_last()).after(events.last())
        }
    }

    /// Once the pointer has left a button, the button is normal, and nothing
    /// short of a new press on it gets it clicked: a press that the pointer
    /// has walked away from is not completed by a release, wherever the
    /// pointer has been in between.
    pub proof fn lemma_leaving_cancels_press(self, leave: MouseEvent, rest: Seq<Event>)
        requires
            !self.region.spec_contains(leave.spec_position()),
            forall|i: int|
                0 <= i < rest.len() ==> !(#[trigger] rest[i] matches Event::Mouse(
                    MouseEvent::Down { .. },
                )),
        ensures
            self.after(Event::Mouse(leave)).state is Normal,
            self.after(Event::Mouse(leave)).after_all(rest).region == self.region,
            self.after(Event::Mouse(leave)).after_all(rest).state is Normal || self.after(
                Event::Mouse(leave),
            ).after_all(rest).state is Hover,
            !(self.after(Event::Mouse(leave)).after_all(rest).state is Clicked),
        decreases rest.len(),
    {
        if rest.len() > 0 {
            assert forall|i: int| 0 <= i < rest.drop_last().len() implies !(
            #[trigger] rest.drop_last()[i] matches Event::Mouse(MouseEvent::Down { .. })) by {
                assert(rest.drop_last()[i] == rest[i]);
            }
            self.lemma_leaving_cancels_press(leave, rest.drop_last());
            assert(!(rest[rest.len() - 1] matches Event::Mouse(MouseEvent::Down { .. })));
        }
    }

    /// Where the button is drawn: its region, pushed down and cut short by
    /// the offset of its state.
    pub open spec fn spec_render_region(&self) -> Region {
        Region {
            position: Position {
                x: self.region.position.x,
                y: (self.region.position.y + self.state.spec_render_offset()) as i32,
            },
            size: Size {
                width: self.region.size.width,
                height: (self.region.size.height - self.state.spec_render_offset()) as u32,
            },
        }
    }

    /// Where the button is drawn: its region, pushed down and cut short by
    /// the offset of its state.
    #[verifier::when_used_as_spec(spec_render_region)]
    pub fn render_region(&self) -> (region: Region)
        requires
            self.state.spec_render_offset() <= self.region.size.height,
            self.region.position.y + self.state.spec_render_offset() <= i32::MAX,
        ensures
            region == self.spec_render_region(),
    {
        let offset: u32 = self.state.render_offset();
        Region {
            position: Position { x: self.region.position.x, y: self.region.position.y + offset as i32 },
            size: Size { width: self.region.size.width, height: self.region.size.height - offset },
        }
    }

    /// Lets the button see `event`.
    pub fn handle_event(&mut self, event: &Event)
        ensures
            *final(self) == old(self).after(*event),
    {
        match event {
            Event::Mouse(mouse) => {
                if !self.region.contains(mouse.position()) {
                    self.state = ButtonState::Normal;
                    return ;
                }
                match (self.state, mouse) {
                    (ButtonState::Normal, MouseEvent::Move { .. }) => {
                        self.state = ButtonState::Hover;
                    },
                    (_, MouseEvent::Down { .. }) => {
                        self.state = ButtonState::Pressed;
                    },
                    (ButtonState::Pressed, MouseEvent::Up { .. }) => {
                        self.state = ButtonState::Clicked;
                    },
                    _ => {},
                }
            },
            _ => {},
        }
    }

    /// Whether the button was clicked since this was last asked. A click is
    /// reported once.
    pub fn take_clicked(&mut self) -> (clicked: bool)
        ensures
            clicked == (old(self).state is Clicked),
            final(self).region == old(self).region,
            final(self).state == if clicked {
                ButtonState::Normal
            } else {
                old(self).state
            },
    {
        if self.state == ButtonState::Clicked {
            self.state = ButtonState::Normal;
            true
        } else {
            false
        }
    }
}

/// The window of the game: its five buttons and what it remembers of the
/// pointer.
#[derive(Debug, Clone, Copy)]
pub struct Window {
    pub help_button: Button,
    pub start_8x15_button: Button,
    pub start_16x30_button: Button,
    pub start_16x30_with_wormhole_button: Button,
    pub start_custom_button: Button,
    /// Whether the pointer is down.
    pub pressing: bool,
    /// Where the pointer last went down.
    pub last_press_position: Position,
    /// The cell of the board that the pointer hovers over, if any.
    pub focus_cell: Option<Position>,
}

impl Default for Window {
    fn default() -> (window: Self)
        ensures
            window == Window::initial(),
    {
        Window {
            help_button: Button::default(),
            start_8x15_button: Button::default(),
            start_16x30_button: Button::default(),
            start_16x30_with_wormhole_button: Button::default(),
            start_custom_button: Button::default(),
            pressing: false,
            last_press_position: Position::from_xy(0, 0),
            focus_cell: None,
        }
    }
}

impl Window {
    /// The window before its buttons are laid out.
    pub open spec fn initial() -> Window {
        let button = Button { region: Region::default_value(), state: ButtonState::Normal };
        Window {
            help_button: button,
            start_8x15_button: button,
            start_16x30_button: button,
            start_16x30_with_wormhole_button: button,
            start_custom_button: button,
            pressing: false,
            last_press_position: Position { x: 0, y: 0 },
            focus_cell: None,
        }
    }

    /// Whether the board of `level` can be laid out in pixels: the level can
    /// have a board, and the window around it is no wider or higher than a
    /// pixel coordinate can say.
    pub open spec fn displayable(level: Level) -> bool {
        &&& level.valid()
        &&& CELL_SIZE * level.spec_board_size().width + 2 * MARGIN_SIZE <= i32::MAX
        &&& CELL_SIZE * level.spec_board_size().height + 3 * MARGIN_SIZE + HEADER_HEIGHT
            <= i32::MAX
    }

    /// The header: as wide as the board, below the top margin.
    pub open spec fn spec_header_region(level: Level) -> Region {
        Region {
            position: Position { x: MARGIN_SIZE as i32, y: MARGIN_SIZE as i32 },
            size: Size {
                width: (CELL_SIZE * level.spec_board_size().width) as u32,
                height: HEADER_HEIGHT,
            },
        }
    }

    /// The board: below the header, a margin apart.
    pub open spec fn spec_board_region(level: Level) -> Region {
        Region {
            position: Position {
                x: MARGIN_SIZE as i32,
                y: (2 * MARGIN_SIZE + HEADER_HEIGHT) as i32,
            },
            size: Size {
                width: (CELL_SIZE * level.spec_board_size().width) as u32,
                height: (CELL_SIZE * level.spec_board_size().height) as u32,
            },
        }
    }

    /// The window: header and board with margins around and between them.
    pub open spec fn spec_window_size(level: Level) -> Size {
        Size {
            width: (2 * MARGIN_SIZE + CELL_SIZE * level.spec_board_size().width) as u32,
            height: (3 * MARGIN_SIZE + HEADER_HEIGHT + CELL_SIZE
                * level.spec_board_size().height) as u32,
        }
    }

    /// The cell of the board that the pixel `pixel` of the board lies in.
    pub open spec fn cell_under(pixel: Position) -> Position {
        Position {
            x: ((pixel.x - MARGIN_SIZE) / (CELL_SIZE as int)) as i32,
            y: ((pixel.y - (2 * MARGIN_SIZE + HEADER_HEIGHT)) / (CELL_SIZE as int)) as i32,
        }
    }

    /// The window with its buttons at their places in the header, none of
    /// them touched.
    pub open spec fn laid_out(self) -> Window {
        Window {
            start_8x15_button: Button {
                region: Region {
                    position: Position { x: 148, y: 4 },
                    size: Size { width: 20, height: 21 },
                },
                state: ButtonState::Normal,
            },
            start_16x30_button: Button {
                region: Region {
                    position: Position { x: 172, y: 4 },
                    size: Size { width: 20, height: 21 },
                },
                state: ButtonState::Normal,
            },
            start_16x30_with_wormhole_button: Button {
                region: Region {
                    position: Position { x: 196, y: 4 },
                    size: Size { width: 20, height: 21 },
                },
                state: ButtonState::Normal,
            },
            help_button: Button {
                region: Region {
                    position: Position { x: 235, y: 4 },
                    size: Size { width: 20, height: 21 },
                },
                state: ButtonState::Normal,
            },
            start_custom_button: Button {
                region: Region {
                    position: Position { x: 203, y: 4 },
                    size: Size { width: 23, height: 21 },
                },
                state: ButtonState::Normal,
            },
            ..self
        }
    }

    /// The window and the game after the pointer event `event`, the buttons
    /// left aside. A press is remembered with its place. A move while the
    /// pointer is up puts the focus on the cell under the pointer, or on none
    /// off the board. A release ends the press; it is a click on the cell
    /// under the pointer if the pointer was down, has not moved since it went
    /// down, and is on the board.
    pub open spec fn after_mouse(self, event: MouseEvent, model: ModelView) -> (Window, ModelView) {
        let pixel = event.spec_position();
        let on_board = Window::spec_board_region(model.level).spec_contains(pixel);
        match event {
            MouseEvent::Down { .. } => (
                Window { pressing: true, last_press_position: pixel, ..self },
                model,
            ),
            MouseEvent::Move { .. } => (
                Window {
                    focus_cell: if self.pressing {
                        self.focus_cell
                    } else if on_board {
                        Some(Window::cell_under(pixel))
                    } else {
                        None
                    },
                    ..self
                },
                model,
            ),
            MouseEvent::Up { .. } => (
                Window { pressing: false, ..self },
                if self.pressing && pixel == self.last_press_position && on_board {
                    model.click(Window::cell_under(pixel))
                } else {
                    model
                },
            ),
        }
    }

    /// The window with `event` shown to the buttons that are in use: the
    /// custom start button if `custom`, else the three preset buttons, and
    /// the help button in either case.
    pub open spec fn buttons_after(self, event: Event, custom: bool) -> Window {
        Window {
            help_button: self.help_button.after(event),
            start_8x15_button: if custom {
                self.start_8x15_button
            } else {
                self.start_8x15_button.after(event)
            },
            start_16x30_button: if custom {
                self.start_16x30_button
            } else {
                self.start_16x30_button.after(event)
            },
            start_16x30_with_wormhole_button: if custom {
                self.start_16x30_with_wormhole_button
            } else {
                self.start_16x30_with_wormhole_button.after(event)
            },
            start_custom_button: if custom {
                self.start_custom_button.after(event)
            } else {
                self.start_custom_button
            },
            ..self
        }
    }

    /// The window and the game after `event`: a pointer event acts on the
    /// board, and every event is shown to the buttons in use.
    pub open spec fn after(self, event: Event, model: ModelView) -> (Window, ModelView) {
        let (window, model) = match event {
            Event::Mouse(mouse) => self.after_mouse(mouse, model),
            _ => (self, model),
        };
        (window.buttons_after(event, model.level is Custom), model)
    }

    /// The pixels of the board of `level` can be counted, and each lies in a
    /// cell of the board.
    pub proof fn lemma_cell_under(level: Level, pixel: Position)
        requires
            Window::displayable(level),
            Window::spec_board_region(level).spec_contains(pixel),
        ensures
            0 <= Window::cell_under(pixel).x < level.spec_board_size().width,
            0 <= Window::cell_under(pixel).y < level.spec_board_size().height,
            Window::cell_under(pixel).x == (pixel.x - 3) / 16,
            Window::cell_under(pixel).y == (pixel.y - 30) / 16,
    {
        level.lemma_region_on_board();
    }

    /// A press and a release at one pixel of the board are one click on the
    /// cell under that pixel, which places or takes away a mine there if the
    /// game accepts it. A release at another pixel, so also one over another
    /// cell, or off the board, is no click: the game stays as it was.
    pub proof fn lemma_press_and_release(self, model: ModelView, down: Position, up: Position)
        ensures
            ({
                let pressed = self.after(Event::Mouse(MouseEvent::Down { position: down }), model);
                let released = pressed.0.after(
                    Event::Mouse(MouseEvent::Up { position: up }),
                    pressed.1,
                );
                let on_board = Window::spec_board_region(model.level).spec_contains(up);
                &&& pressed.1 == model
                &&& !released.0.pressing
                &&& up == down && on_board ==> released.1 == model.click(Window::cell_under(up))
                &&& up == down && on_board && model.accepts(Window::cell_under(up))
                    ==> released.1.board == model.board.toggled(Window::cell_under(up))
                &&& up != down ==> released.1 == model
                &&& Window::cell_under(up) != Window::cell_under(down) ==> released.1 == model
                &&& !on_board ==> released.1 == model
            }),
    {
    }

    fn header_size(&self, model: &Model) -> (size: Size)
        requires
            model@.wf(),
            Window::displayable(model@.level),
        ensures
            size == Window::spec_header_region(model@.level).size,
    {
        Size::from_wh(CELL_SIZE * model.board_size().width, HEADER_HEIGHT)
    }

    fn board_size(&self, model: &Model) -> (size: Size)
        requires
            model@.wf(),
            Window::displayable(model@.level),
        ensures
            size == Window::spec_board_region(model@.level).size,
    {
        Size::from_wh(CELL_SIZE * model.board_size().width, CELL_SIZE * model.board_size().height)
    }

    /// The size of the window, in pixels.
    pub fn window_size(&self, model: &Model) -> (size: Size)
        requires
            model@.wf(),
            Window::displayable(model@.level),
        ensures
            size == Window::spec_window_size(model@.level),
    {
        Size::from_wh(
            MARGIN_SIZE * 2 + self.board_size(model).width,
            MARGIN_SIZE * 3 + self.header_size(model).height + self.board_size(model).height,
        )
    }

    /// Where the header is in the window.
    pub fn header_region(&self, model: &Model) -> (region: Region)
        requires
            model@.wf(),
            Window::displayable(model@.level),
        ensures
            region == Window::spec_header_region(model@.level),
    {
        self.header_size(model).to_region().move_x(MARGIN_SIZE as i32).move_y(MARGIN_SIZE as i32)
    }

    /// Where the board is in the window.
    pub fn board_region(&self, model: &Model) -> (region: Region)
        requires
            model@.wf(),
            Window::displayable(model@.level),
        ensures
            region == Window::spec_board_region(model@.level),
    {
        let below_header: i32 = self.header_region(model).end().y + MARGIN_SIZE as i32;
        self.board_size(model).to_region().move_x(MARGIN_SIZE as i32).move_y(below_header)
    }

    /// Lays out the buttons in the header. Reading the pictures drawn on them
    /// is the host's affair.
    pub fn load_assets(&mut self, model: &Model)
        ensures
            *final(self) == old(self).laid_out(),
    {
        let button_region: Region = Region::new(
            Position::from_xy(MARGIN_SIZE as i32, MARGIN_SIZE as i32),
            Size::from_wh(20, 21),
        ).move_y(1);
        self.start_8x15_button = Button::new(button_region.move_x(145));
        self.start_16x30_button = Button::new(button_region.move_x(169));
        self.start_16x30_with_wormhole_button = Button::new(button_region.move_x(193));
        self.help_button = Button::new(button_region.move_x(232));
        self.start_custom_button = Button::new(
            Region::new(self.help_button.region.move_x(-32).position, Size::from_wh(23, 21)),
        );
    }

    /// Lets the window see `event`: the board first, then the buttons.
    pub fn handle_event(&mut self, event: Event, model: &mut Model)
        requires
            old(model)@.wf(),
            Window::displayable(old(model)@.level),
        ensures
            (*final(self), final(model)@) == old(self).after(event, old(model)@),
            final(model)@.wf(),
            final(model)@.level == old(model)@.level,
            final(model)@.board.region == old(model)@.board.region,
            old(model)@.balanced() ==> final(model)@.balanced(),
            old(self).drawable() ==> final(self).drawable(),
    {
        match event {
            Event::Mouse(mouse) => {
                self.handle_mouse_event(&mouse, model);
            },
            _ => {},
        }
        if model.is_custom_mode() {
            self.start_custom_button.handle_event(&event);
        } else {
            self.start_8x15_button.handle_event(&event);
            self.start_16x30_button.handle_event(&event);
            self.start_16x30_with_wormhole_button.handle_event(&event);
        }
        self.help_button.handle_event(&event);
    }

    pub fn take_help_button_clicked(&mut self) -> (clicked: bool)
        ensures
            clicked == (old(self).help_button.state is Clicked),
            *final(self) == if clicked {
                Window {
                    help_button: Button { state: ButtonState::Normal, ..old(self).help_button },
                    ..*old(self)
                }
            } else {
                *old(self)
            },
    {
        self.help_button.take_clicked()
    }

    pub fn take_start_8x15_button_clicked(&mut self) -> (clicked: bool)
        ensures
            clicked == (old(self).start_8x15_button.state is Clicked),
            *final(self) == if clicked {
                Window {
                    start_8x15_button: Button {
                        state: ButtonState::Normal,
                        ..old(self).start_8x15_button
                    },
                    ..*old(self)
                }
            } else {
                *old(self)
            },
    {
        self.start_8x15_button.take_clicked()
    }

    pub fn take_start_16x30_button_clicked(&mut self) -> (clicked: bool)
        ensures
            clicked == (old(self).start_16x30_button.state is Clicked),
            *final(self) == if clicked {
                Window {
                    start_16x30_button: Button {
                        state: ButtonState::Normal,
                        ..old(self).start_16x30_button
                    },
                    ..*old(self)
                }
            } else {
                *old(self)
            },
    {
        self.start_16x30_button.take_clicked()
    }

    pub fn take_start_16x30_with_wormhole_button_clicked(&mut self) -> (clicked: bool)
        ensures
            clicked == (old(self).start_16x30_with_wormhole_button.state is Clicked),
            *final(self) == if clicked {
                Window {
                    start_16x30_with_wormhole_button: Button {
                        state: ButtonState::Normal,
                        ..old(self).start_16x30_with_wormhole_button
                    },
                    ..*old(self)
                }
            } else {
                *old(self)
            },
    {
        self.start_16x30_with_wormhole_button.take_clicked()
    }

    pub fn take_start_custom_button_clicked(&mut self) -> (clicked: bool)
        ensures
            clicked == (old(self).start_custom_button.state is Clicked),
            *final(self) == if clicked {
                Window {
                    start_custom_button: Button {
                        state: ButtonState::Normal,
                        ..old(self).start_custom_button
                    },
                    ..*old(self)
                }
            } else {
                *old(self)
            },
    {
        self.start_custom_button.take_clicked()
    }

    fn handle_mouse_event(&mut self, event: &MouseEvent, model: &mut Model)
        requires
            old(model)@.wf(),
            Window::displayable(old(model)@.level),
        ensures
            (*final(self), final(model)@) == old(self).after_mouse(*event, old(model)@),
            final(model)@.wf(),
            final(model)@.level == old(model)@.level,
            final(model)@.board.region == old(model)@.board.region,
            old(model)@.balanced() ==> final(model)@.balanced(),
    {
        let pixel_position: Position = event.position();
        let board_region: Region = self.board_region(model);
        proof {
            if board_region.spec_contains(pixel_position) {
                Window::lemma_cell_under(model@.level, pixel_position);
                model@.lemma_click(Window::cell_under(pixel_position));
            }
        }
        match event {
            MouseEvent::Down { .. } => {
                self.pressing = true;
                self.last_press_position = pixel_position;
            },
            MouseEvent::Move { .. } => {
                if !self.pressing {
                    if board_region.contains(pixel_position) {
                        self.focus_cell = Some(Window::cell_at(board_region, pixel_position));
                    } else {
                        self.focus_cell = None;
                    }
                }
            },
            MouseEvent::Up { .. } => {
                let was_pressing: bool = self.pressing;
                self.pressing = false;
                if was_pressing && pixel_position == self.last_press_position
                    && board_region.contains(pixel_position) {
                    model.handle_click(Window::cell_at(board_region, pixel_position));
                }
            },
        }
    }

    /// The cell that the pixel `pixel` of the board lies in.
    fn cell_at(board_region: Region, pixel: Position) -> (cell: Position)
        requires
            board_region.position == (Position { x: 3, y: 30 }),
            board_region.spec_contains(pixel),
            board_region.end_x() <= i32::MAX,
            board_region.end_y() <= i32::MAX,
        ensures
            cell == Window::cell_under(pixel),
    {
        let start: Position = board_region.start();
        let x: i32 = (pixel.x - start.x) / (CELL_SIZE as i32);
        let y: i32 = (pixel.y - start.y) / (CELL_SIZE as i32);
        Position::from_xy(x, y)
    }
}

} // verus!
