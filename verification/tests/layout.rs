use sticky::layout::CaretStop;
use sticky::layout::Direction;
use sticky::layout::IndexResult;
use sticky::layout::LayoutSnapshot;
use sticky::layout::LinePosition;
use sticky::layout::Point;
use sticky::layout::VerticalStep;
use sticky::layout::WrappedLine;

fn stop(index: usize, sub_line: usize, x: i64) -> CaretStop {
    CaretStop { index, sub_line, x }
}

/// A line of ASCII text on one sub-line, every glyph 10 units wide.
fn plain_line(len: usize) -> WrappedLine {
    let stops = (0..=len).map(|i| stop(i, 0, 10 * i as i64)).collect();
    WrappedLine::new(len, stops).unwrap()
}

/// Eight glyphs of 10 units, wrapped after the fourth.
fn wrapped_line() -> WrappedLine {
    let stops = vec![
        stop(0, 0, 0),
        stop(1, 0, 10),
        stop(2, 0, 20),
        stop(3, 0, 30),
        stop(4, 0, 40),
        stop(4, 1, 0),
        stop(5, 1, 10),
        stop(6, 1, 20),
        stop(7, 1, 30),
        stop(8, 1, 40),
    ];
    WrappedLine::new(8, stops).unwrap()
}

/// The wrapped line and then a line of two glyphs; rows are 20 units high.
fn snapshot(origin: Point) -> LayoutSnapshot {
    LayoutSnapshot::new(vec![wrapped_line(), plain_line(2)], 20, origin).unwrap()
}

const ZERO: Point = Point { x: 0, y: 0 };

#[test]
fn a_line_needs_stops_in_order() {
    assert!(WrappedLine::new(0, vec![]).is_none());
    assert!(WrappedLine::new(0, vec![stop(0, 0, 0)]).is_some());
    // The first stop is at index 0 on sub-line 0.
    assert!(WrappedLine::new(1, vec![stop(1, 0, 0)]).is_none());
    assert!(WrappedLine::new(1, vec![stop(0, 1, 0), stop(1, 1, 5)]).is_none());
    // The last stop is at the length.
    assert!(WrappedLine::new(2, vec![stop(0, 0, 0), stop(1, 0, 5)]).is_none());
    // Within a sub-line the index rises and x does not fall.
    assert!(WrappedLine::new(1, vec![stop(0, 0, 0), stop(0, 0, 5), stop(1, 0, 9)]).is_none());
    assert!(WrappedLine::new(1, vec![stop(0, 0, 9), stop(1, 0, 5)]).is_none());
    // The sub-line rises by one at most, and the index never falls.
    assert!(WrappedLine::new(1, vec![stop(0, 0, 0), stop(1, 2, 0)]).is_none());
    assert!(WrappedLine::new(1, vec![stop(0, 0, 0), stop(1, 0, 5), stop(0, 1, 0), stop(1, 1, 5)])
        .is_none());
    assert!(WrappedLine::new(1, vec![stop(0, 0, 0), stop(1, 0, 5), stop(1, 1, 0)]).is_some());
}

#[test]
fn length_and_wrap_count() {
    assert_eq!(wrapped_line().len(), 8);
    assert_eq!(wrapped_line().wrap_count(), 1);
    assert_eq!(plain_line(2).len(), 2);
    assert_eq!(plain_line(2).wrap_count(), 0);
    assert_eq!(plain_line(0).wrap_count(), 0);
}

#[test]
fn position_for_index_gives_the_last_stop_at_the_index() {
    let line = wrapped_line();
    assert_eq!(line.position_for_index(0), Some(stop(0, 0, 0)));
    assert_eq!(line.position_for_index(3), Some(stop(3, 0, 30)));
    // The wrap boundary belongs to the start of the next sub-line.
    assert_eq!(line.position_for_index(4), Some(stop(4, 1, 0)));
    assert_eq!(line.position_for_index(8), Some(stop(8, 1, 40)));
    assert_eq!(line.position_for_index(9), None);
}

#[test]
fn position_for_an_index_inside_a_glyph() {
    // One glyph of three bytes, then one of one byte.
    let line = WrappedLine::new(4, vec![stop(0, 0, 0), stop(3, 0, 12), stop(4, 0, 20)]).unwrap();
    assert_eq!(line.position_for_index(1), Some(stop(0, 0, 0)));
    assert_eq!(line.position_for_index(2), Some(stop(0, 0, 0)));
    assert_eq!(line.position_for_index(3), Some(stop(3, 0, 12)));
}

#[test]
fn index_for_position_within_and_past_the_text() {
    let line = wrapped_line();
    assert_eq!(line.index_for_position(25, 0), IndexResult::FoundAt(2));
    assert_eq!(line.index_for_position(20, 0), IndexResult::FoundAt(2));
    assert_eq!(line.index_for_position(39, 0), IndexResult::FoundAt(3));
    assert_eq!(line.index_for_position(40, 0), IndexResult::ClampedToLineEnd(4));
    assert_eq!(line.index_for_position(1000, 0), IndexResult::ClampedToLineEnd(4));
    assert_eq!(line.index_for_position(-3, 0), IndexResult::FoundAt(0));
    assert_eq!(line.index_for_position(5, 1), IndexResult::FoundAt(4));
    assert_eq!(line.index_for_position(-5, 1), IndexResult::FoundAt(4));
    assert_eq!(line.index_for_position(35, 1), IndexResult::FoundAt(7));
    assert_eq!(line.index_for_position(40, 1), IndexResult::ClampedToLineEnd(8));
    // Past the last sub-line: the end of the line.
    assert_eq!(line.index_for_position(5, 2), IndexResult::ClampedToLineEnd(8));
    assert_eq!(line.index_for_position(i128::MAX, 1), IndexResult::ClampedToLineEnd(8));
    assert_eq!(line.index_for_position(i128::MIN, 1), IndexResult::FoundAt(4));
}

#[test]
fn index_for_position_on_an_empty_line() {
    let line = plain_line(0);
    assert_eq!(line.index_for_position(0, 0), IndexResult::ClampedToLineEnd(0));
    assert_eq!(line.index_for_position(-1, 0), IndexResult::FoundAt(0));
    assert_eq!(line.closest_index_for_position(-1, 0), IndexResult::FoundAt(0));
}

#[test]
fn closest_index_takes_the_nearer_stop() {
    let line = wrapped_line();
    assert_eq!(line.closest_index_for_position(24, 0), IndexResult::FoundAt(2));
    assert_eq!(line.closest_index_for_position(26, 0), IndexResult::FoundAt(3));
    // Equally near: the left one.
    assert_eq!(line.closest_index_for_position(25, 0), IndexResult::FoundAt(2));
    assert_eq!(line.closest_index_for_position(39, 0), IndexResult::FoundAt(4));
    assert_eq!(line.closest_index_for_position(40, 0), IndexResult::ClampedToLineEnd(4));
    assert_eq!(line.closest_index_for_position(-8, 0), IndexResult::FoundAt(0));
    assert_eq!(line.closest_index_for_position(12, 1), IndexResult::FoundAt(5));
    assert_eq!(line.closest_index_for_position(18, 1), IndexResult::FoundAt(6));
    assert_eq!(line.closest_index_for_position(7, 3), IndexResult::ClampedToLineEnd(8));
}

#[test]
fn the_index_of_a_result() {
    assert_eq!(IndexResult::FoundAt(3).index(), 3);
    assert_eq!(IndexResult::ClampedToLineEnd(8).index(), 8);
}

#[test]
fn a_snapshot_needs_a_positive_row_height_that_fits() {
    assert!(LayoutSnapshot::new(vec![plain_line(2)], 0, ZERO).is_none());
    assert!(LayoutSnapshot::new(vec![plain_line(2)], -20, ZERO).is_none());
    assert!(LayoutSnapshot::new(vec![], 20, ZERO).is_some());
    assert!(LayoutSnapshot::new(vec![plain_line(2)], i64::MAX, ZERO).is_some());
    // Two rows of the greatest height do not fit.
    assert!(LayoutSnapshot::new(vec![plain_line(2), plain_line(1)], i64::MAX, ZERO).is_none());
    assert!(LayoutSnapshot::new(vec![wrapped_line()], i64::MAX, ZERO).is_none());
    assert!(LayoutSnapshot::new(vec![wrapped_line()], i64::MAX / 2, ZERO).is_some());
    // The bytes of all lines fit together with their line breaks.
    let huge = WrappedLine::new(usize::MAX, vec![stop(0, 0, 0), stop(usize::MAX, 0, 1)]).unwrap();
    assert!(LayoutSnapshot::new(vec![huge], 20, ZERO).is_none());
    let large =
        WrappedLine::new(usize::MAX - 1, vec![stop(0, 0, 0), stop(usize::MAX - 1, 0, 1)]).unwrap();
    assert!(LayoutSnapshot::new(vec![large], 20, ZERO).is_some());
}

#[test]
fn snapshot_getters() {
    let layout = snapshot(Point { x: 3, y: 4 });
    assert_eq!(layout.line_count(), 2);
    assert_eq!(layout.line_height(), 20);
    assert_eq!(layout.origin(), Point { x: 3, y: 4 });
}

#[test]
fn line_and_position_of_an_offset() {
    let layout = snapshot(ZERO);
    let at = |line_index, sub_line_index, x, y| {
        Some(LinePosition { line_index, sub_line_index, point: Point { x, y } })
    };
    assert_eq!(layout.line_and_position_for_offset(0), at(0, 0, 0, 0));
    assert_eq!(layout.line_and_position_for_offset(3), at(0, 0, 30, 0));
    assert_eq!(layout.line_and_position_for_offset(4), at(0, 1, 0, 20));
    assert_eq!(layout.line_and_position_for_offset(8), at(0, 1, 40, 20));
    // The second line starts after the 8 bytes and the line break.
    assert_eq!(layout.line_and_position_for_offset(9), at(1, 0, 0, 40));
    assert_eq!(layout.line_and_position_for_offset(11), at(1, 0, 20, 40));
    assert_eq!(layout.line_and_position_for_offset(12), None);
    assert_eq!(LayoutSnapshot::new(vec![], 20, ZERO).unwrap().line_and_position_for_offset(0), None);
}

#[test]
fn one_step_up_or_down() {
    let layout = snapshot(ZERO);
    let sub_line = |line_index, sub_line_index| VerticalStep::SubLine { line_index, sub_line_index };
    assert_eq!(layout.vertical_step(0, 0, Direction::Up), VerticalStep::DocumentStart);
    assert_eq!(layout.vertical_step(0, 1, Direction::Up), sub_line(0, 0));
    assert_eq!(layout.vertical_step(1, 0, Direction::Up), sub_line(0, 1));
    assert_eq!(layout.vertical_step(0, 0, Direction::Down), sub_line(0, 1));
    assert_eq!(layout.vertical_step(0, 1, Direction::Down), sub_line(1, 0));
    assert_eq!(layout.vertical_step(1, 0, Direction::Down), VerticalStep::DocumentEnd);
}

#[test]
fn offset_for_a_position_on_a_sub_line() {
    let layout = snapshot(ZERO);
    assert_eq!(layout.offset_for_position(0, 0, 25), 2);
    assert_eq!(layout.offset_for_position(0, 0, 400), 4);
    assert_eq!(layout.offset_for_position(0, 1, 25), 6);
    assert_eq!(layout.offset_for_position(1, 0, 15), 10);
    assert_eq!(layout.offset_for_position(1, 0, 400), 11);
    assert_eq!(layout.offset_for_position(1, 5, 0), 11);
}

#[test]
fn offset_for_a_point() {
    let layout = snapshot(ZERO);
    assert_eq!(layout.offset_for_point(Point { x: 12, y: 25 }), 5);
    assert_eq!(layout.offset_for_point(Point { x: 18, y: 39 }), 6);
    assert_eq!(layout.offset_for_point(Point { x: 25, y: 45 }), 11);
    assert_eq!(layout.offset_for_point(Point { x: 4, y: 40 }), 9);
    // Above the text: the first row.
    assert_eq!(layout.offset_for_point(Point { x: 12, y: -300 }), 1);
    // Below the text: the end of the layout.
    assert_eq!(layout.offset_for_point(Point { x: 0, y: 60 }), 12);
    assert_eq!(layout.offset_for_point(Point { x: 0, y: i64::MAX }), 12);
}

#[test]
fn points_are_measured_from_the_origin() {
    let layout = snapshot(Point { x: 100, y: 50 });
    assert_eq!(layout.offset_for_point(Point { x: 112, y: 75 }), 5);
    assert_eq!(layout.offset_for_point(Point { x: 125, y: 95 }), 11);
    assert_eq!(layout.offset_for_point(Point { x: 0, y: 0 }), 0);
    assert_eq!(layout.closest_index_in_first_line(Point { x: 126, y: 0 }), 3);
    let extreme = snapshot(Point { x: i64::MIN, y: i64::MIN });
    assert_eq!(extreme.offset_for_point(Point { x: i64::MAX, y: i64::MAX }), 12);
}

#[test]
fn closest_index_in_the_first_line() {
    let layout = LayoutSnapshot::new(vec![plain_line(6)], 20, ZERO).unwrap();
    assert_eq!(layout.closest_index_in_first_line(Point { x: 34, y: 900 }), 3);
    assert_eq!(layout.closest_index_in_first_line(Point { x: 36, y: 0 }), 4);
    assert_eq!(layout.closest_index_in_first_line(Point { x: 99, y: 0 }), 6);
    let empty = LayoutSnapshot::new(vec![], 20, ZERO).unwrap();
    assert_eq!(empty.closest_index_in_first_line(Point { x: 34, y: 0 }), 0);
}
