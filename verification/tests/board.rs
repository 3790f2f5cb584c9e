use mineplacer::asset::palette_to_rgb;
use mineplacer::board::{Board, Cell};
use mineplacer::spatial::{Position, Region, Size};

fn pos(x: i32, y: i32) -> Position {
    Position::from_xy(x, y)
}

/// Four by three cells, the right three columns in play: two wormholes at
/// the top, then mines hidden at (1, 1), (2, 1) and (3, 2).
fn dealt() -> Board {
    let region = Region::new(pos(1, 0), Size::from_wh(3, 3));
    let order = vec![
        pos(1, 0),
        pos(2, 0),
        pos(1, 1),
        pos(2, 1),
        pos(3, 2),
        pos(3, 0),
        pos(3, 1),
        pos(1, 2),
        pos(2, 2),
    ];
    Board::deal(Size::from_wh(4, 3), region, &order, 2, 3)
}

#[test]
fn blank_board_has_blank_cells_and_is_solved() {
    let board = Board::blank(Size::from_wh(3, 2));
    assert_eq!(board.region(), Region::new(pos(0, 0), Size::from_wh(3, 2)));
    for p in board.region().positions() {
        assert_eq!(board.cell(p), Cell::default());
        assert_eq!(board.surrounding_mines(p), 0);
    }
    assert!(board.is_solved());
    assert_eq!(board.discrepancies().len(), 6);
    assert!(Board::blank(Size::from_wh(0, 0)).is_solved());
    assert!(Board::blank(Size::from_wh(0, 5)).discrepancies().is_empty());
}

#[test]
fn dealt_board_has_its_wormholes_and_mines_where_the_order_puts_them() {
    let board = dealt();
    let wormhole = Cell { wormhole: true, ..Cell::default() };
    let mine = Cell { expected_mine: true, ..Cell::default() };
    let blank = Cell::default();
    let expected = [
        [blank, wormhole, wormhole, blank],
        [blank, mine, mine, blank],
        [blank, blank, blank, mine],
    ];
    for (y, row) in expected.iter().enumerate() {
        for (x, cell) in row.iter().enumerate() {
            assert_eq!(board.cell(pos(x as i32, y as i32)), *cell);
        }
    }
    assert_eq!(board.region(), Region::new(pos(1, 0), Size::from_wh(3, 3)));
}

#[test]
fn cells_count_the_hidden_mines_around_them() {
    let board = dealt();
    assert_eq!(
        board.discrepancies(),
        vec![
            (pos(1, 0), 2),
            (pos(2, 0), 2),
            (pos(3, 0), 1),
            (pos(1, 1), 2),
            (pos(2, 1), 3),
            (pos(3, 1), 2),
            (pos(1, 2), 2),
            (pos(2, 2), 3),
            (pos(3, 2), 2),
        ]
    );
    // Cells off the region count what they see of it, and count for nothing.
    assert_eq!(board.surrounding_mines(pos(0, 1)), 1);
    assert_eq!(board.surrounding_mines(pos(0, 0)), 1);
    assert_eq!(board.surrounding_mines(pos(4, 3)), 1);
    assert_eq!(board.surrounding_mines(pos(5, 3)), 0);
    assert_eq!(board.surrounding_mines(pos(-1, -1)), 0);
    assert_eq!(board.surrounding_mines(pos(i32::MAX, i32::MAX)), 0);
    assert_eq!(board.surrounding_mines(pos(i32::MIN, i32::MIN)), 0);
    assert!(!board.is_solved());
}

#[test]
fn board_with_no_hidden_mines_is_solved() {
    let region = Size::from_wh(2, 2).to_region();
    let board = Board::deal(Size::from_wh(2, 2), region, &region.positions(), 4, 0);
    assert!(board.is_solved());
    let board = Board::deal(Size::from_wh(2, 2), region, &region.positions(), 0, 0);
    assert!(board.is_solved());
    let board = Board::deal(Size::from_wh(2, 2), region, &region.positions(), 3, 1);
    assert_eq!(board.discrepancies()[3], (pos(1, 1), 1));
    // The one cell of the game sees its own mine.
    assert!(!board.is_solved());
}

#[test]
fn palette_gives_each_index_its_colour() {
    let palette = [10, 11, 12, 20, 21, 22, 30, 31, 32];
    assert_eq!(
        palette_to_rgb(&[2, 0, 0, 1], &palette),
        vec![30, 31, 32, 10, 11, 12, 10, 11, 12, 20, 21, 22]
    );
    assert_eq!(palette_to_rgb(&[], &palette), Vec::<u8>::new());
    assert_eq!(palette_to_rgb(&[], &[]), Vec::<u8>::new());
    assert_eq!(palette_to_rgb(&[0], &[1, 2, 3, 4]), vec![1, 2, 3]);
}
