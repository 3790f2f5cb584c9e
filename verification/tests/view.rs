use mineplacer::event::{Event, MouseEvent};
use mineplacer::model::{Level, Model, State};
use mineplacer::spatial::{Position, Region, Size};
use mineplacer::time::Duration;
use mineplacer::view::ButtonState::{Clicked, Hover, Normal, Pressed};
use mineplacer::view::{Button, ButtonState, Window};

fn pos(x: i32, y: i32) -> Position {
    Position::from_xy(x, y)
}

fn down(x: i32, y: i32) -> Event {
    Event::Mouse(MouseEvent::Down { position: pos(x, y) })
}

fn up(x: i32, y: i32) -> Event {
    Event::Mouse(MouseEvent::Up { position: pos(x, y) })
}

fn moved(x: i32, y: i32) -> Event {
    Event::Mouse(MouseEvent::Move { position: pos(x, y) })
}

fn button() -> Button {
    Button::new(Region::new(pos(10, 20), Size::from_wh(20, 21)))
}

fn in_state(state: ButtonState) -> Button {
    Button { state, ..button() }
}

/// A large game on a board dealt in order: the mines hide in the first 99
/// cells.
fn playing() -> (Window, Model) {
    let mut model = Model::default();
    model.initialize(Duration::from_secs(1));
    let order = Size::from_wh(16, 30).to_region().positions();
    model.start_game_with_order(Duration::from_secs(0), Level::Large, &order);
    let mut window = Window::default();
    window.load_assets(&model);
    (window, model)
}

fn placed(model: &Model) -> Vec<Position> {
    model.board_size().to_region().positions().into_iter().filter(|p| model.has_mine(*p)).collect()
}

const STATES: [ButtonState; 4] =
    [ButtonState::Normal, ButtonState::Hover, ButtonState::Pressed, ButtonState::Clicked];

#[test]
fn button_starts_normal() {
    assert_eq!(button().state, ButtonState::Normal);
    assert_eq!(button().region, Region::new(pos(10, 20), Size::from_wh(20, 21)));
    assert_eq!(Button::default().state, ButtonState::Normal);
    assert_eq!(Button::default().region, Region::default());
    assert_eq!(ButtonState::default(), ButtonState::Normal);
}

#[test]
fn button_transitions_inside_its_region() {
    let table = [
        (Normal, moved(10, 20), Hover),
        (Hover, moved(11, 21), Hover),
        (Pressed, moved(11, 21), Pressed),
        (Clicked, moved(11, 21), Clicked),
        (Normal, down(29, 40), Pressed),
        (Hover, down(29, 40), Pressed),
        (Pressed, down(29, 40), Pressed),
        (Clicked, down(29, 40), Pressed),
        (Normal, up(15, 25), Normal),
        (Hover, up(15, 25), Hover),
        (Pressed, up(15, 25), Clicked),
        (Clicked, up(15, 25), Clicked),
    ];
    for (before, event, after) in table {
        let mut b = in_state(before);
        b.handle_event(&event);
        assert_eq!(b.state, after, "{:?} {:?}", before, event);
        assert_eq!(b.region, button().region);
    }
}

#[test]
fn any_pointer_event_outside_makes_the_button_normal() {
    for state in STATES {
        for event in [moved(9, 20), down(30, 20), up(10, 41), moved(10, 19), up(-5, -5)] {
            let mut b = in_state(state);
            b.handle_event(&event);
            assert_eq!(b.state, ButtonState::Normal);
        }
    }
}

#[test]
fn other_events_leave_the_button_alone() {
    for state in STATES {
        for event in [Event::Key, Event::Timeout(3), Event::WindowResized(Size::from_wh(1, 1))] {
            let mut b = in_state(state);
            b.handle_event(&event);
            assert_eq!(b.state, state);
        }
    }
}

#[test]
fn press_that_leaves_the_button_is_not_completed_by_a_release_inside() {
    let mut b = button();
    b.handle_event(&moved(15, 25));
    b.handle_event(&down(15, 25));
    assert_eq!(b.state, ButtonState::Pressed);
    b.handle_event(&moved(50, 25));
    assert_eq!(b.state, ButtonState::Normal);
    b.handle_event(&moved(15, 25));
    assert_eq!(b.state, ButtonState::Hover);
    b.handle_event(&up(15, 25));
    assert_eq!(b.state, ButtonState::Hover);
    assert!(!b.take_clicked());
}

#[test]
fn click_is_reported_once() {
    let mut b = button();
    b.handle_event(&down(15, 25));
    assert!(!b.take_clicked());
    assert_eq!(b.state, ButtonState::Pressed);
    b.handle_event(&up(15, 25));
    assert_eq!(b.state, ButtonState::Clicked);
    assert!(b.take_clicked());
    assert_eq!(b.state, ButtonState::Normal);
    assert!(!b.take_clicked());
    for state in [ButtonState::Normal, ButtonState::Hover, ButtonState::Pressed] {
        let mut b = in_state(state);
        assert!(!b.take_clicked());
        assert_eq!(b.state, state);
    }
}

#[test]
fn button_is_drawn_lower_the_further_it_is_pressed() {
    let expected = [
        (ButtonState::Normal, 0, pos(10, 20), Size::from_wh(20, 21)),
        (ButtonState::Hover, 1, pos(10, 21), Size::from_wh(20, 20)),
        (ButtonState::Pressed, 2, pos(10, 22), Size::from_wh(20, 19)),
        (ButtonState::Clicked, 2, pos(10, 22), Size::from_wh(20, 19)),
    ];
    for (state, offset, position, size) in expected {
        assert_eq!(state.render_offset(), offset);
        assert_eq!(in_state(state).render_region(), Region::new(position, size));
    }
}

#[test]
fn buttons_are_laid_out_in_the_header() {
    let (window, _) = playing();
    let size = Size::from_wh(20, 21);
    assert_eq!(window.start_8x15_button, Button::new(Region::new(pos(148, 4), size)));
    assert_eq!(window.start_16x30_button, Button::new(Region::new(pos(172, 4), size)));
    assert_eq!(
        window.start_16x30_with_wormhole_button,
        Button::new(Region::new(pos(196, 4), size))
    );
    assert_eq!(window.help_button, Button::new(Region::new(pos(235, 4), size)));
    assert_eq!(
        window.start_custom_button,
        Button::new(Region::new(pos(203, 4), Size::from_wh(23, 21)))
    );
}

#[test]
fn layout_of_the_presets() {
    let (window, model) = playing();
    assert_eq!(window.window_size(&model), Size::from_wh(262, 513));
    assert_eq!(window.header_region(&model), Region::new(pos(3, 3), Size::from_wh(256, 24)));
    assert_eq!(window.board_region(&model), Region::new(pos(3, 30), Size::from_wh(256, 480)));
}

#[test]
fn layout_of_a_custom_level() {
    let mut model = Model::default();
    model.set_custom_level(Level::Custom { width: 20, height: 64, mines: 9, wormholes: 9 });
    let window = Window::default();
    assert_eq!(window.window_size(&model), Size::from_wh(326, 1057));
    assert_eq!(window.header_region(&model), Region::new(pos(3, 3), Size::from_wh(320, 24)));
    assert_eq!(window.board_region(&model), Region::new(pos(3, 30), Size::from_wh(320, 1024)));
}

#[test]
fn press_and_release_at_one_pixel_toggle_the_cell_under_it() {
    let (mut window, mut model) = playing();
    // Pixel (100, 200) lies in the cell (6, 10): (100 - 3) / 16 and (200 - 30) / 16.
    window.handle_event(down(100, 200), &mut model);
    assert!(window.pressing);
    assert_eq!(window.last_press_position, pos(100, 200));
    assert!(placed(&model).is_empty());
    window.handle_event(up(100, 200), &mut model);
    assert!(!window.pressing);
    assert_eq!(placed(&model), vec![pos(6, 10)]);
    assert_eq!(model.remaining_mines(), 98);
    window.handle_event(down(100, 200), &mut model);
    window.handle_event(up(100, 200), &mut model);
    assert!(placed(&model).is_empty());
    assert_eq!(model.remaining_mines(), 99);
}

#[test]
fn corners_of_the_board_map_to_its_corner_cells() {
    for (pixel, cell) in [
        ((3, 30), (0, 0)),
        ((18, 45), (0, 0)),
        ((19, 46), (1, 1)),
        ((258, 509), (15, 29)),
        ((243, 494), (15, 29)),
        ((242, 493), (14, 28)),
    ] {
        let (mut window, mut model) = playing();
        window.handle_event(down(pixel.0, pixel.1), &mut model);
        window.handle_event(up(pixel.0, pixel.1), &mut model);
        assert_eq!(placed(&model), vec![pos(cell.0, cell.1)]);
    }
}

#[test]
fn release_over_another_cell_toggles_nothing() {
    let (mut window, mut model) = playing();
    window.handle_event(down(100, 200), &mut model);
    window.handle_event(moved(120, 200), &mut model);
    window.handle_event(up(120, 200), &mut model);
    assert!(!window.pressing);
    assert!(placed(&model).is_empty());
    assert_eq!(model.remaining_mines(), 99);
}

#[test]
fn release_at_another_pixel_of_the_cell_toggles_nothing() {
    let (mut window, mut model) = playing();
    window.handle_event(down(100, 200), &mut model);
    window.handle_event(up(101, 200), &mut model);
    assert!(placed(&model).is_empty());
}

#[test]
fn release_off_the_board_toggles_nothing() {
    let (mut window, mut model) = playing();
    for (x, y) in [(2, 30), (3, 29), (259, 100), (100, 510), (100, 10)] {
        window.handle_event(down(x, y), &mut model);
        window.handle_event(up(x, y), &mut model);
        assert!(!window.pressing);
    }
    assert!(placed(&model).is_empty());
}

#[test]
fn release_without_a_press_toggles_nothing() {
    let (mut window, mut model) = playing();
    window.handle_event(up(100, 200), &mut model);
    assert!(placed(&model).is_empty());
    // The place of an old press does not count either.
    window.handle_event(down(100, 200), &mut model);
    window.handle_event(up(50, 50), &mut model);
    window.handle_event(up(100, 200), &mut model);
    assert!(placed(&model).is_empty());
}

#[test]
fn click_on_the_board_before_a_game_toggles_nothing() {
    let mut model = Model::default();
    model.initialize(Duration::from_secs(1));
    let mut window = Window::default();
    window.load_assets(&model);
    window.handle_event(down(100, 200), &mut model);
    window.handle_event(up(100, 200), &mut model);
    assert!(placed(&model).is_empty());
    assert_eq!(model.state(), State::Initial);
}

#[test]
fn focus_follows_the_pointer_while_it_is_up() {
    let (mut window, mut model) = playing();
    assert_eq!(window.focus_cell, None);
    window.handle_event(moved(100, 200), &mut model);
    assert_eq!(window.focus_cell, Some(pos(6, 10)));
    window.handle_event(moved(3, 30), &mut model);
    assert_eq!(window.focus_cell, Some(pos(0, 0)));
    window.handle_event(moved(2, 30), &mut model);
    assert_eq!(window.focus_cell, None);
    window.handle_event(moved(258, 509), &mut model);
    assert_eq!(window.focus_cell, Some(pos(15, 29)));
    window.handle_event(down(258, 509), &mut model);
    window.handle_event(moved(100, 200), &mut model);
    assert_eq!(window.focus_cell, Some(pos(15, 29)));
    window.handle_event(up(100, 200), &mut model);
    assert_eq!(window.focus_cell, Some(pos(15, 29)));
    window.handle_event(moved(100, 200), &mut model);
    assert_eq!(window.focus_cell, Some(pos(6, 10)));
    assert!(placed(&model).is_empty());
}

#[test]
fn preset_buttons_see_the_events_of_a_preset_game() {
    let (mut window, mut model) = playing();
    window.start_custom_button.state = ButtonState::Pressed;
    window.handle_event(moved(150, 10), &mut model);
    assert_eq!(window.start_8x15_button.state, ButtonState::Hover);
    assert_eq!(window.start_16x30_button.state, ButtonState::Normal);
    assert_eq!(window.start_custom_button.state, ButtonState::Pressed);
    window.handle_event(down(150, 10), &mut model);
    window.handle_event(up(150, 10), &mut model);
    assert!(window.take_start_8x15_button_clicked());
    assert!(!window.take_start_8x15_button_clicked());
    assert!(!window.take_start_16x30_button_clicked());
    assert!(!window.take_start_16x30_with_wormhole_button_clicked());
    assert!(!window.take_help_button_clicked());
    assert!(!window.take_start_custom_button_clicked());
    assert_eq!(window.start_custom_button.state, ButtonState::Pressed);
}

#[test]
fn each_button_reports_its_own_click() {
    for (x, which) in [(150, 0), (175, 1), (200, 2), (240, 3)] {
        let (mut window, mut model) = playing();
        window.handle_event(down(x, 10), &mut model);
        window.handle_event(up(x, 10), &mut model);
        let clicked = [
            window.take_start_8x15_button_clicked(),
            window.take_start_16x30_button_clicked(),
            window.take_start_16x30_with_wormhole_button_clicked(),
            window.take_help_button_clicked(),
        ];
        for (i, c) in clicked.iter().enumerate() {
            assert_eq!(*c, i == which);
        }
    }
}

#[test]
fn custom_button_sees_the_events_of_a_custom_game() {
    let mut model = Model::default();
    model.set_custom_level(Level::Custom { width: 16, height: 16, mines: 9, wormholes: 9 });
    let mut window = Window::default();
    window.load_assets(&model);
    // (210, 10) lies on the custom button and on the third preset button.
    window.handle_event(down(210, 10), &mut model);
    window.handle_event(up(210, 10), &mut model);
    assert_eq!(window.start_16x30_with_wormhole_button.state, ButtonState::Normal);
    assert!(!window.take_start_16x30_with_wormhole_button_clicked());
    assert!(window.take_start_custom_button_clicked());
    assert!(!window.take_start_custom_button_clicked());
    window.handle_event(down(240, 10), &mut model);
    window.handle_event(up(240, 10), &mut model);
    assert!(window.take_help_button_clicked());
}

#[test]
fn timers_and_keys_do_not_touch_the_window() {
    let (mut window, mut model) = playing();
    window.handle_event(moved(150, 10), &mut model);
    window.handle_event(Event::Timeout(0), &mut model);
    window.handle_event(Event::Key, &mut model);
    window.handle_event(Event::WindowResized(Size::from_wh(10, 10)), &mut model);
    assert_eq!(window.start_8x15_button.state, ButtonState::Hover);
    assert!(!window.pressing);
    assert!(placed(&model).is_empty());
}
