use mineplacer::level::Level;
use mineplacer::model::{Model, State};
use mineplacer::spatial::{Position, Region, Size};
use mineplacer::time::Duration;

fn pos(x: i32, y: i32) -> Position {
    Position::from_xy(x, y)
}

fn seeded(seed: u64) -> Model {
    let mut model = Model::default();
    model.initialize(Duration::from_secs(seed));
    model
}

fn grid(model: &Model) -> Vec<Position> {
    model.board_size().to_region().positions()
}

fn wormholes(model: &Model) -> Vec<Position> {
    grid(model).into_iter().filter(|p| model.has_wormhole(*p)).collect()
}

fn hidden(model: &Model) -> Vec<Position> {
    grid(model).into_iter().filter(|p| model.has_expected_mine(*p)).collect()
}

fn placed(model: &Model) -> Vec<Position> {
    grid(model).into_iter().filter(|p| model.has_mine(*p)).collect()
}

/// A board of three by three cells: a wormhole in the middle, mines hidden
/// in the top-left and bottom-right corners.
fn three_by_three() -> Model {
    let mut model = seeded(1);
    model.set_custom_level(Level::Custom { width: 3, height: 3, mines: 2, wormholes: 1 });
    let order = vec![
        pos(1, 1),
        pos(0, 0),
        pos(2, 2),
        pos(1, 0),
        pos(2, 0),
        pos(0, 1),
        pos(2, 1),
        pos(0, 2),
        pos(1, 2),
    ];
    model.start_game_with_order(Duration::from_secs(10), Level::Small, &order);
    model
}

fn check_dealt(model: &Model, level: Level) {
    let region = Region::new(
        level.offset(),
        Size::from_wh(level.width() as u32, level.height() as u32),
    );
    let wormholes = wormholes(model);
    let hidden = hidden(model);
    assert_eq!(wormholes.len(), level.wormholes());
    assert_eq!(hidden.len(), level.mines());
    assert!(wormholes.iter().all(|p| region.contains(*p)));
    assert!(hidden.iter().all(|p| region.contains(*p)));
    assert!(hidden.iter().all(|p| !wormholes.contains(p)));
    assert!(placed(model).is_empty());
    assert_eq!(model.remaining_mines(), level.mines());
    assert_eq!(model.state(), State::Playing);
    assert_eq!(model.region(), region);
    assert_eq!(model.mines(), level.mines());
    assert_eq!(model.wormholes(), level.wormholes());
}

#[test]
fn model_before_its_first_game() {
    let model = Model::default();
    assert_eq!(model.state(), State::Initial);
    assert_eq!(model.remaining_mines(), 0);
    assert_eq!(model.elapsed_time(), Duration::default());
    assert_eq!(model.mines(), 99);
    assert_eq!(model.wormholes(), 0);
    assert!(!model.is_custom_mode());
    assert_eq!(model.board_size(), Size::from_wh(16, 30));
    assert_eq!(model.region(), Region::default());
    assert!(model.surrounding_mines().is_empty());
}

#[test]
fn initialize_lays_out_the_empty_board_of_the_presets() {
    let model = seeded(42);
    assert_eq!(model.state(), State::Initial);
    assert_eq!(model.region(), Size::from_wh(16, 30).to_region());
    assert_eq!(grid(&model).len(), 480);
    assert!(wormholes(&model).is_empty());
    assert!(hidden(&model).is_empty());
    assert!(placed(&model).is_empty());
    assert_eq!(model.surrounding_mines().len(), 480);
    assert!(model.surrounding_mines().iter().all(|(_, n)| *n == 0));
}

#[test]
fn each_preset_is_dealt_with_its_mines_and_wormholes() {
    for seed in [0, 1, 2, 12345] {
        for level in [Level::Small, Level::Large, Level::LargeWithWormhole] {
            let mut model = seeded(seed);
            model.start_game(Duration::from_secs(3), level);
            check_dealt(&model, level);
            assert_eq!(model.board_size(), Size::from_wh(16, 30));
        }
    }
}

#[test]
fn custom_level_is_dealt_with_fifty_mines_and_fifty_wormholes() {
    let level = Level::from_qs("?width=16&height=16&mines=50&wormholes=50").unwrap().unwrap();
    let mut model = seeded(7);
    model.set_custom_level(level);
    model.start_game(Duration::from_secs(0), Level::Large);
    check_dealt(&model, level);
    assert_eq!(wormholes(&model).len(), 50);
    assert_eq!(hidden(&model).len(), 50);
    assert_eq!(model.board_size(), Size::from_wh(16, 16));
}

#[test]
fn full_board_of_mines_and_wormholes() {
    let level = Level::Custom { width: 4, height: 3, mines: 5, wormholes: 7 };
    let mut model = seeded(3);
    model.set_custom_level(level);
    model.start_game(Duration::from_secs(0), level);
    check_dealt(&model, level);
    let mut all = wormholes(&model);
    all.extend(hidden(&model));
    all.sort_by_key(|p| (p.y, p.x));
    assert_eq!(all, grid(&model));
}

#[test]
fn same_seed_deals_the_same_board() {
    let mut a = seeded(99);
    let mut b = seeded(99);
    a.start_game(Duration::from_secs(1), Level::LargeWithWormhole);
    b.start_game(Duration::from_secs(2), Level::LargeWithWormhole);
    assert_eq!(hidden(&a), hidden(&b));
    assert_eq!(wormholes(&a), wormholes(&b));
    let mut c = seeded(100);
    c.start_game(Duration::from_secs(1), Level::LargeWithWormhole);
    assert_ne!(hidden(&a), hidden(&c));
}

#[test]
fn second_game_is_dealt_anew() {
    let mut model = seeded(5);
    model.start_game(Duration::from_secs(1), Level::Large);
    let first = hidden(&model);
    let p = first[0];
    model.handle_click(p);
    assert_eq!(placed(&model), vec![p]);
    model.start_game(Duration::from_secs(2), Level::Large);
    check_dealt(&model, Level::Large);
    assert_ne!(hidden(&model), first);
}

#[test]
fn shuffled_board_differs_from_the_positions_in_order() {
    let mut shuffled = seeded(11);
    shuffled.start_game(Duration::from_secs(0), Level::Large);
    let mut in_order = seeded(11);
    let order = Size::from_wh(16, 30).to_region().positions();
    in_order.start_game_with_order(Duration::from_secs(0), Level::Large, &order);
    assert_eq!(hidden(&in_order), order[..99].to_vec());
    assert_ne!(hidden(&shuffled), hidden(&in_order));
}

#[test]
fn board_dealt_from_a_given_order() {
    let model = three_by_three();
    assert_eq!(model.state(), State::Playing);
    assert!(model.is_custom_mode());
    assert_eq!(model.remaining_mines(), 2);
    assert_eq!(wormholes(&model), vec![pos(1, 1)]);
    assert_eq!(hidden(&model), vec![pos(0, 0), pos(2, 2)]);
    assert!(placed(&model).is_empty());
    assert_eq!(
        model.surrounding_mines(),
        vec![
            (pos(0, 0), 1),
            (pos(1, 0), 1),
            (pos(2, 0), 0),
            (pos(0, 1), 1),
            (pos(1, 1), 2),
            (pos(2, 1), 1),
            (pos(0, 2), 0),
            (pos(1, 2), 1),
            (pos(2, 2), 1),
        ]
    );
}

#[test]
fn small_preset_plays_on_a_part_of_the_board() {
    let mut model = seeded(1);
    let order = Region::new(pos(4, 7), Size::from_wh(8, 15)).positions();
    model.start_game_with_order(Duration::from_secs(0), Level::Small, &order);
    assert_eq!(hidden(&model), order[..15].to_vec());
    assert_eq!(model.surrounding_mines().len(), 120);
    // The mines hide in the top row of the region and in all but the last
    // cell of the row below; the cells left of the region count for nothing.
    assert_eq!(model.surrounding_mines()[0], (pos(4, 7), 4));
    assert_eq!(model.surrounding_mines()[1], (pos(5, 7), 6));
    assert_eq!(model.surrounding_mines()[7], (pos(11, 7), 3));
    assert_eq!(model.surrounding_mines()[8], (pos(4, 8), 4));
    assert_eq!(model.surrounding_mines()[16], (pos(4, 9), 2));
    assert_eq!(model.surrounding_mines()[119], (pos(11, 21), 0));
    // A click off the region changes nothing, though the cell is on the board.
    model.handle_click(pos(3, 7));
    model.handle_click(pos(4, 6));
    model.handle_click(pos(12, 7));
    model.handle_click(pos(4, 22));
    assert!(placed(&model).is_empty());
    assert_eq!(model.remaining_mines(), 15);
    model.handle_click(pos(11, 21));
    assert_eq!(placed(&model), vec![pos(11, 21)]);
    assert_eq!(model.remaining_mines(), 14);
}

#[test]
fn click_before_the_first_game_changes_nothing() {
    let mut model = seeded(1);
    model.handle_click(pos(0, 0));
    assert!(placed(&model).is_empty());
    assert_eq!(model.remaining_mines(), 0);
    assert_eq!(model.state(), State::Initial);
}

#[test]
fn click_off_the_board_changes_nothing() {
    let mut model = three_by_three();
    for p in [pos(-1, 0), pos(0, -1), pos(3, 0), pos(0, 3), pos(i32::MAX, i32::MIN)] {
        model.handle_click(p);
    }
    assert!(placed(&model).is_empty());
    assert_eq!(model.remaining_mines(), 2);
    assert_eq!(model.state(), State::Playing);
}

#[test]
fn click_on_a_wormhole_changes_nothing() {
    let mut model = three_by_three();
    model.handle_click(pos(1, 1));
    assert!(placed(&model).is_empty());
    assert_eq!(model.remaining_mines(), 2);
}

#[test]
fn click_places_a_mine_and_the_counts_follow() {
    let mut model = three_by_three();
    model.handle_click(pos(1, 0));
    assert_eq!(placed(&model), vec![pos(1, 0)]);
    assert_eq!(model.remaining_mines(), 1);
    assert_eq!(model.state(), State::Playing);
    assert_eq!(
        model.surrounding_mines(),
        vec![
            (pos(0, 0), 0),
            (pos(1, 0), 0),
            (pos(2, 0), -1),
            (pos(0, 1), 0),
            (pos(1, 1), 1),
            (pos(2, 1), 0),
            (pos(0, 2), 0),
            (pos(1, 2), 1),
            (pos(2, 2), 1),
        ]
    );
}

#[test]
fn second_click_on_a_cell_undoes_the_first() {
    let mut model = three_by_three();
    model.handle_click(pos(2, 0));
    let before = (placed(&model), model.remaining_mines(), model.surrounding_mines());
    model.handle_click(pos(0, 1));
    assert_eq!(model.remaining_mines(), 0);
    assert!(model.has_mine(pos(0, 1)));
    model.handle_click(pos(0, 1));
    assert!(!model.has_mine(pos(0, 1)));
    assert_eq!((placed(&model), model.remaining_mines(), model.surrounding_mines()), before);
    model.handle_click(pos(2, 0));
    model.handle_click(pos(2, 0));
    assert_eq!((placed(&model), model.remaining_mines(), model.surrounding_mines()), before);
}

#[test]
fn no_mine_is_placed_when_none_is_left() {
    let mut model = three_by_three();
    model.handle_click(pos(1, 0));
    model.handle_click(pos(2, 0));
    assert_eq!(model.remaining_mines(), 0);
    assert_eq!(model.state(), State::Playing);
    model.handle_click(pos(0, 0));
    assert_eq!(placed(&model), vec![pos(1, 0), pos(2, 0)]);
    assert_eq!(model.remaining_mines(), 0);
    // A placed mine can still be taken away.
    model.handle_click(pos(1, 0));
    assert_eq!(placed(&model), vec![pos(2, 0)]);
    assert_eq!(model.remaining_mines(), 1);
}

#[test]
fn game_is_won_when_the_last_mine_evens_every_count() {
    let mut model = three_by_three();
    model.update_elapsed_time(Duration::new(17, 500));
    model.handle_click(pos(0, 0));
    assert_eq!(model.state(), State::Playing);
    model.handle_click(pos(2, 2));
    assert_eq!(model.state(), State::Won { elapsed_time: Duration::new(7, 500) });
    assert!(model.surrounding_mines().iter().all(|(_, n)| *n == 0));
    assert_eq!(model.remaining_mines(), 0);
}

#[test]
fn another_placement_than_the_hidden_one_can_win() {
    // One row of two cells with one mine: either cell evens both counts.
    let mut model = seeded(1);
    model.set_custom_level(Level::Custom { width: 2, height: 1, mines: 1, wormholes: 0 });
    model.start_game_with_order(Duration::default(), Level::Large, &vec![pos(0, 0), pos(1, 0)]);
    assert_eq!(hidden(&model), vec![pos(0, 0)]);
    model.handle_click(pos(1, 0));
    assert_eq!(model.state(), State::Won { elapsed_time: Duration::default() });
}

#[test]
fn all_mines_placed_wrongly_do_not_win() {
    let mut model = three_by_three();
    model.handle_click(pos(0, 0));
    model.handle_click(pos(2, 0));
    assert_eq!(model.remaining_mines(), 0);
    assert_eq!(model.state(), State::Playing);
    model.handle_click(pos(2, 0));
    model.handle_click(pos(2, 2));
    assert!(matches!(model.state(), State::Won { .. }));
}

#[test]
fn nothing_changes_after_the_game_is_won() {
    let mut model = three_by_three();
    model.handle_click(pos(0, 0));
    model.handle_click(pos(2, 2));
    let won = model.state();
    assert!(matches!(won, State::Won { .. }));
    model.handle_click(pos(0, 0));
    model.handle_click(pos(1, 0));
    assert_eq!(placed(&model), vec![pos(0, 0), pos(2, 2)]);
    assert_eq!(model.remaining_mines(), 0);
    assert_eq!(model.state(), won);
}

#[test]
fn winning_click_cannot_be_undone() {
    let mut model = three_by_three();
    model.handle_click(pos(0, 0));
    assert_eq!(model.remaining_mines(), 1);
    model.handle_click(pos(2, 2));
    model.handle_click(pos(2, 2));
    assert!(model.has_mine(pos(2, 2)));
    assert_eq!(model.remaining_mines(), 0);
}

#[test]
fn level_without_mines_is_solved_but_never_won() {
    let mut model = seeded(1);
    let level = Level::Custom { width: 2, height: 2, mines: 0, wormholes: 0 };
    model.set_custom_level(level);
    model.start_game(Duration::default(), level);
    assert_eq!(model.state(), State::Playing);
    assert_eq!(model.remaining_mines(), 0);
    assert!(model.surrounding_mines().iter().all(|(_, n)| *n == 0));
    model.handle_click(pos(0, 0));
    assert!(placed(&model).is_empty());
    assert_eq!(model.state(), State::Playing);
}

#[test]
fn elapsed_time_runs_while_the_game_is_on() {
    let mut model = three_by_three();
    assert_eq!(model.elapsed_time(), Duration::default());
    model.update_elapsed_time(Duration::new(10, 0));
    assert_eq!(model.elapsed_time(), Duration::default());
    model.update_elapsed_time(Duration::new(12, 250));
    assert_eq!(model.elapsed_time(), Duration::new(2, 250));
    model.update_elapsed_time(Duration::new(1000, 0));
    assert_eq!(model.elapsed_time(), Duration::new(990, 0));
}

#[test]
fn elapsed_time_reads_zero_before_the_first_game() {
    let mut model = seeded(1);
    model.update_elapsed_time(Duration::new(12, 0));
    assert_eq!(model.elapsed_time(), Duration::default());
    assert_eq!(model.state(), State::Initial);
}

#[test]
fn elapsed_time_stands_still_after_a_win() {
    let mut model = three_by_three();
    model.update_elapsed_time(Duration::new(15, 0));
    model.handle_click(pos(0, 0));
    model.handle_click(pos(2, 2));
    model.update_elapsed_time(Duration::new(60, 0));
    assert_eq!(model.elapsed_time(), Duration::new(5, 0));
    assert_eq!(model.state(), State::Won { elapsed_time: Duration::new(5, 0) });
}

#[test]
fn custom_level_stays_when_a_preset_is_asked_for() {
    let level = Level::Custom { width: 20, height: 16, mines: 30, wormholes: 4 };
    let mut model = seeded(8);
    model.start_game(Duration::from_secs(1), Level::Small);
    assert!(!model.is_custom_mode());
    model.set_custom_level(level);
    assert!(model.is_custom_mode());
    model.start_game(Duration::from_secs(5), Level::Small);
    check_dealt(&model, level);
    assert!(model.is_custom_mode());
    assert_eq!(model.board_size(), Size::from_wh(20, 16));
    model.update_elapsed_time(Duration::from_secs(6));
    assert_eq!(model.elapsed_time(), Duration::from_secs(1));
    model.start_game(Duration::from_secs(7), Level::Large);
    check_dealt(&model, level);
}

#[test]
fn setting_a_level_clears_the_board() {
    let mut model = three_by_three();
    model.handle_click(pos(0, 0));
    let level = Level::Custom { width: 5, height: 4, mines: 3, wormholes: 0 };
    model.set_custom_level(level);
    assert_eq!(model.board_size(), Size::from_wh(5, 4));
    assert_eq!(model.region(), Size::from_wh(5, 4).to_region());
    assert_eq!(grid(&model).len(), 20);
    assert!(placed(&model).is_empty());
    assert!(hidden(&model).is_empty());
    assert!(wormholes(&model).is_empty());
    assert_eq!(model.mines(), 3);
    assert_eq!(model.state(), State::Playing);
    assert_eq!(model.remaining_mines(), 1);
}

#[test]
fn preset_can_be_set_and_does_not_stay() {
    let mut model = seeded(1);
    model.set_custom_level(Level::Small);
    assert!(!model.is_custom_mode());
    assert_eq!(model.mines(), 15);
    model.start_game(Duration::default(), Level::Large);
    check_dealt(&model, Level::Large);
}

#[test]
fn any_game_is_won_by_taking_wrong_mines_away_and_placing_the_hidden_ones() {
    for (seed, level) in [
        (1, Level::Small),
        (2, Level::Large),
        (3, Level::LargeWithWormhole),
        (4, Level::Custom { width: 16, height: 16, mines: 50, wormholes: 50 }),
    ] {
        let mut model = seeded(seed);
        if level.is_custom() {
            model.set_custom_level(level);
        }
        model.start_game(Duration::from_secs(0), level);
        // Some mines go where they happen to fall.
        for p in model.region().positions().into_iter().step_by(7) {
            model.handle_click(p);
        }
        for p in placed(&model) {
            if !model.has_expected_mine(p) {
                model.handle_click(p);
            }
        }
        for p in hidden(&model) {
            if !model.has_mine(p) {
                assert_eq!(model.state(), State::Playing);
                model.handle_click(p);
            }
        }
        if model.state() == State::Playing {
            // All mines lay right from the start of this round: one of them
            // is taken away and put back.
            let p = hidden(&model)[0];
            model.handle_click(p);
            model.handle_click(p);
        }
        assert!(matches!(model.state(), State::Won { .. }));
        assert_eq!(model.remaining_mines(), 0);
        assert!(model.surrounding_mines().iter().all(|(p, n)| *n == 0 || model.has_wormhole(*p)));
    }
}
