use mineplacer::spatial::{Position, Region, Size};
use mineplacer::time::Duration;

#[test]
fn region_contains_its_left_and_top_edge_but_not_its_right_and_bottom_edge() {
    let region = Region::new(Position::from_xy(3, 30), Size::from_wh(256, 480));
    assert!(region.contains(Position::from_xy(3, 30)));
    assert!(region.contains(Position::from_xy(258, 509)));
    assert!(!region.contains(Position::from_xy(259, 509)));
    assert!(!region.contains(Position::from_xy(258, 510)));
    assert!(!region.contains(Position::from_xy(2, 30)));
    assert!(!region.contains(Position::from_xy(3, 29)));
    assert!(region.holds_at(3, 30));
    assert!(!region.holds_at(259, 30));
}

#[test]
fn empty_region_contains_nothing() {
    let region = Region::default();
    assert!(!region.contains(Position::from_xy(0, 0)));
    assert_eq!(region.positions(), Vec::<Position>::new());
    assert_eq!(region, Size::from_wh(0, 0).to_region());
}

#[test]
fn region_at_the_far_corner_of_the_plane() {
    let region = Region::new(Position::from_xy(i32::MAX - 1, i32::MAX), Size::from_wh(2, 1));
    assert!(region.contains(Position::from_xy(i32::MAX, i32::MAX)));
    assert!(!region.contains(Position::from_xy(i32::MAX - 2, i32::MAX)));
    assert_eq!(
        region.positions(),
        vec![Position::from_xy(i32::MAX - 1, i32::MAX), Position::from_xy(i32::MAX, i32::MAX)]
    );
}

#[test]
fn positions_come_row_by_row() {
    let region = Region::new(Position::from_xy(4, 7), Size::from_wh(3, 2));
    assert_eq!(
        region.positions(),
        vec![
            Position::from_xy(4, 7),
            Position::from_xy(5, 7),
            Position::from_xy(6, 7),
            Position::from_xy(4, 8),
            Position::from_xy(5, 8),
            Position::from_xy(6, 8),
        ]
    );
}

#[test]
fn corners_and_moves() {
    let region = Region::new(Position::from_xy(-4, 7), Size::from_wh(8, 15));
    assert_eq!(region.start(), Position::from_xy(-4, 7));
    assert_eq!(region.end(), Position::from_xy(4, 22));
    assert_eq!(region.move_x(5).position, Position::from_xy(1, 7));
    assert_eq!(region.move_y(-7).position, Position::from_xy(-4, 0));
    assert_eq!(region.move_x(5).size, Size::from_wh(8, 15));
    assert_eq!(Position::from_xy(1, 2).move_x(-3).move_y(4), Position::from_xy(-2, 6));
    assert_eq!(Size::square(16), Size::from_wh(16, 16));
    assert_eq!(Position::default(), Position::from_xy(0, 0));
    assert_eq!(Size::default(), Size::from_wh(0, 0));
}

#[test]
fn nanoseconds_beyond_a_second_carry_over() {
    let d = Duration::new(1, 2_500_000_000);
    assert_eq!(d.as_secs(), 3);
    assert_eq!(d.subsec_nanos(), 500_000_000);
    assert_eq!(d, Duration::new(3, 500_000_000));
}

#[test]
fn durations_from_seconds_and_microseconds() {
    assert_eq!(Duration::from_secs(7), Duration::new(7, 0));
    assert_eq!(Duration::from_micros(33_333), Duration::new(0, 33_333_000));
    assert_eq!(Duration::from_micros(2_000_001), Duration::new(2, 1_000));
    assert_eq!(Duration::default(), Duration::from_secs(0));
    assert_eq!(Duration::from_micros(u64::MAX).as_secs(), u64::MAX / 1_000_000);
}

#[test]
fn durations_compare_by_length() {
    let short = Duration::new(1, 999_999_999);
    let long = Duration::new(2, 0);
    assert!(short.le(&long));
    assert!(!long.le(&short));
    assert!(short.le(&short));
}

#[test]
fn subtraction_borrows_from_the_seconds() {
    let a = Duration::new(5, 100);
    let b = Duration::new(2, 200);
    assert_eq!(a.checked_sub(b), Some(Duration::new(2, 999_999_900)));
    assert_eq!(b.checked_sub(a), None);
    assert_eq!(a.checked_sub(a), Some(Duration::default()));
    assert_eq!(a.checked_sub(Duration::new(5, 101)), None);
    assert_eq!(Duration::new(5, 300).checked_sub(b), Some(Duration::new(3, 100)));
}
