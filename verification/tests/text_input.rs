use sticky::blink_cursor::BlinkCursor;
use sticky::layout::Bounds;
use sticky::layout::CaretStop;
use sticky::layout::Direction;
use sticky::layout::LayoutSnapshot;
use sticky::layout::Point;
use sticky::layout::WrappedLine;
use sticky::text_input::Command;
use sticky::text_input::InputEvent;
use sticky::text_input::TextInput;
use unicode_segmentation::UnicodeSegmentation;

fn input_with(text: &str) -> TextInput {
    let mut input = TextInput::new();
    input.set_text(text);
    input
}

fn changed_to(event: InputEvent) -> String {
    match event {
        InputEvent::Change(text) => text,
        other => panic!("not a change: {:?}", other),
    }
}

fn stop(index: usize, sub_line: usize, x: i64) -> CaretStop {
    CaretStop { index, sub_line, x }
}

fn plain_line(len: usize) -> WrappedLine {
    let stops = (0..=len).map(|i| stop(i, 0, 10 * i as i64)).collect();
    WrappedLine::new(len, stops).unwrap()
}

fn wrapped_line() -> WrappedLine {
    let stops = vec![
        stop(0, 0, 0),
        stop(1, 0, 10),
        stop(2, 0, 20),
        stop(3, 0, 30),
        stop(4, 0, 40),
        stop(4, 1, 0),
        stop(5, 1, 10),
        stop(6, 1, 20),
        stop(7, 1, 30),
        stop(8, 1, 40),
    ];
    WrappedLine::new(8, stops).unwrap()
}

fn layout_of(lines: Vec<WrappedLine>, origin: Point) -> Option<LayoutSnapshot> {
    Some(LayoutSnapshot::new(lines, 20, origin).unwrap())
}

const ZERO: Point = Point { x: 0, y: 0 };

#[test]
fn a_new_input_is_empty() {
    let input = TextInput::new();
    assert_eq!(input.text(), "");
    assert_eq!(input.selected_range(), 0..0);
    assert_eq!(input.cursor_offset(), 0);
    assert!(input.is_single_line());
    assert!(!input.is_multi_line());
    assert!(!input.selection_reversed());
    assert_eq!(input.selected_word_range(), None);
    assert_eq!(input.marked_range(), None);
    assert_eq!(input.preferred_x_offset(), None);
    assert_eq!(TextInput::default().text(), "");
    assert!(TextInput::new().multi_line().is_multi_line());
}

#[test]
fn set_text_puts_the_cursor_at_the_end() {
    let mut input = TextInput::new();
    assert_eq!(changed_to(input.set_text("h\u{e9}llo")), "h\u{e9}llo");
    assert_eq!(input.text(), "h\u{e9}llo");
    assert_eq!(input.selected_range(), 6..6);
    assert_eq!(changed_to(input.set_text("a\u{1F600}")), "a\u{1F600}");
    assert_eq!(input.selected_range(), 5..5);
    assert_eq!(changed_to(input.set_text("")), "");
    assert_eq!(input.selected_range(), 0..0);
}

#[test]
fn insertion_at_the_cursor() {
    let mut input = input_with("abc");
    input.move_to(1);
    assert_eq!(input.selected_range(), 1..1);
    let event = input.replace_text_in_range(None, "X");
    assert_eq!(changed_to(event), "aXbc");
    assert_eq!(input.text(), "aXbc");
    assert_eq!(input.selected_range(), 2..2);
}

#[test]
fn backspace_on_an_empty_selection() {
    let mut input = input_with("ab");
    assert_eq!(input.selected_range(), 2..2);
    let event = input.backspace();
    assert_eq!(changed_to(event), "a");
    assert_eq!(input.text(), "a");
    assert_eq!(input.selected_range(), 1..1);
}

#[test]
fn delete_to_the_beginning_of_the_line() {
    // The second line starts at offset 6; the caret stands before its "2".
    let mut input = input_with("line1\nline2");
    input.move_to(10);
    let event = input.delete_beginning_of_line();
    assert_eq!(changed_to(event), "line1\n2");
    assert_eq!(input.text(), "line1\n2");
    assert_eq!(input.selected_range(), 6..6);
}

#[test]
fn delete_to_the_beginning_of_the_line_from_inside_a_word() {
    // With the caret at offset 8 the two bytes from the line's start go.
    let mut input = input_with("line1\nline2");
    input.move_to(8);
    let event = input.delete_beginning_of_line();
    assert_eq!(changed_to(event), "line1\nne2");
    assert_eq!(input.selected_range(), 6..6);
}

#[test]
fn delete_to_the_beginning_of_the_first_line() {
    let mut input = input_with("line1\nline2");
    input.move_to(3);
    input.delete_beginning_of_line();
    assert_eq!(input.text(), "e1\nline2");
    assert_eq!(input.selected_range(), 0..0);
    input.delete_beginning_of_line();
    assert_eq!(input.text(), "e1\nline2");
}

#[test]
fn delete_to_the_end_of_the_line() {
    let mut input = input_with("line1\nline2");
    input.move_to(2);
    assert_eq!(changed_to(input.delete_end_of_line()), "li\nline2");
    assert_eq!(input.selected_range(), 2..2);
    // At the line break nothing is left to delete.
    input.delete_end_of_line();
    assert_eq!(input.text(), "li\nline2");
    input.move_to(5);
    input.delete_end_of_line();
    assert_eq!(input.text(), "li\nli");
    assert_eq!(input.selected_range(), 5..5);
}

#[test]
fn line_kills_keep_text_that_is_not_ascii() {
    let mut input = input_with("\u{e9}\u{e9}\n\u{e9}\u{e9}\u{e9}");
    input.move_to(9);
    input.delete_beginning_of_line();
    assert_eq!(input.text(), "\u{e9}\u{e9}\n\u{e9}");
    assert_eq!(input.selected_range(), 5..5);
    input.move_to(2);
    input.delete_end_of_line();
    assert_eq!(input.text(), "\u{e9}\n\u{e9}");
}

#[test]
fn backspace_removes_a_whole_grapheme() {
    let mut input = input_with("xe\u{301}");
    input.backspace();
    assert_eq!(input.text(), "x");
    assert_eq!(input.selected_range(), 1..1);
    input.backspace();
    input.backspace();
    assert_eq!(input.text(), "");
    assert_eq!(input.selected_range(), 0..0);
}

#[test]
fn delete_removes_the_next_grapheme() {
    let mut input = input_with("e\u{301}b");
    input.move_to(0);
    assert_eq!(changed_to(input.delete()), "b");
    assert_eq!(input.selected_range(), 0..0);
    input.delete();
    assert_eq!(input.text(), "");
    input.delete();
    assert_eq!(input.text(), "");
}

#[test]
fn backspace_and_delete_remove_a_selection() {
    let mut input = input_with("abcdef");
    input.move_to(1);
    input.select_to(4);
    input.backspace();
    assert_eq!(input.text(), "aef");
    assert_eq!(input.selected_range(), 1..1);
    input.select_to(3);
    input.delete();
    assert_eq!(input.text(), "a");
    assert_eq!(input.selected_range(), 1..1);
}

#[test]
fn enter_inserts_a_line_break() {
    let mut input = input_with("ab");
    input.move_to(1);
    let (change, pressed) = input.enter();
    assert_eq!(changed_to(change), "a\nb");
    assert!(matches!(pressed, InputEvent::PressEnter));
    assert_eq!(input.selected_range(), 2..2);
}

#[test]
fn an_explicit_range_is_in_utf16_units() {
    let mut input = input_with("a\u{1F600}b");
    input.move_to(0);
    input.replace_text_in_range(Some(1..3), "x");
    assert_eq!(input.text(), "axb");
    assert_eq!(input.selected_range(), 2..2);
    // A range past the end is held within the text.
    input.replace_text_in_range(Some(3..90), "!");
    assert_eq!(input.text(), "axb!");
    assert_eq!(input.selected_range(), 4..4);
}

#[test]
fn the_marked_range_goes_before_the_selection() {
    let mut input = input_with("abc");
    input.move_to(3);
    assert!(input.set_marked_range(Some(1..2)));
    assert_eq!(input.marked_range(), Some(1..2));
    assert_eq!(input.marked_text_range(), Some(1..2));
    input.replace_text_in_range(None, "ZZ");
    assert_eq!(input.text(), "aZZc");
    assert_eq!(input.selected_range(), 3..3);
    assert_eq!(input.marked_range(), None);
    assert_eq!(input.marked_text_range(), None);
}

#[test]
fn a_marked_range_off_the_scalar_boundaries_is_refused() {
    let mut input = input_with("a\u{1F600}b");
    assert!(!input.set_marked_range(Some(1..3)));
    assert!(!input.set_marked_range(Some(0..7)));
    assert_eq!(input.marked_range(), None);
    assert!(input.set_marked_range(Some(1..5)));
    assert_eq!(input.marked_text_range(), Some(1..3));
    input.unmark_text();
    assert_eq!(input.marked_range(), None);
    assert!(input.set_marked_range(None));
}

#[test]
fn select_to_swaps_crossed_ends() {
    let mut input = input_with("abcdef");
    input.move_to(3);
    input.select_to(5);
    assert_eq!(input.selected_range(), 3..5);
    assert!(!input.selection_reversed());
    assert_eq!(input.cursor_offset(), 5);
    input.select_to(1);
    assert_eq!(input.selected_range(), 1..3);
    assert!(input.selection_reversed());
    assert_eq!(input.cursor_offset(), 1);
    input.select_to(4);
    assert_eq!(input.selected_range(), 3..4);
    assert!(!input.selection_reversed());
    assert_eq!(input.cursor_offset(), 4);
}

#[test]
fn select_to_rounds_down_to_a_grapheme_boundary() {
    let mut input = input_with("a\u{310}e\u{301}");
    input.move_to(0);
    input.select_to(4);
    assert_eq!(input.selected_range(), 0..3);
    input.select_to(99);
    assert_eq!(input.selected_range(), 0..6);
    input.move_to(5);
    assert_eq!(input.selected_range(), 3..3);
}

#[test]
fn the_word_range_stays_covered() {
    let mut input = input_with("one two three");
    input.move_to(5);
    assert!(input.set_selected_word_range(Some(4..7)));
    input.select_to(5);
    assert_eq!(input.selected_range(), 4..7);
    input.select_to(10);
    assert_eq!(input.selected_range(), 4..10);
    input.select_to(2);
    assert_eq!(input.selected_range(), 2..7);
    // Collapsing to a cursor clears the word range.
    input.move_to(5);
    assert_eq!(input.selected_word_range(), None);
    input.select_to(6);
    assert_eq!(input.selected_range(), 5..6);
}

#[test]
fn a_word_range_that_is_not_valid_is_refused() {
    let mut input = input_with("a\u{1F600}b");
    assert!(!input.set_selected_word_range(Some(5..1)));
    assert!(!input.set_selected_word_range(Some(1..2)));
    assert!(!input.set_selected_word_range(Some(0..9)));
    assert_eq!(input.selected_word_range(), None);
    assert!(input.set_selected_word_range(Some(1..5)));
    assert_eq!(input.selected_word_range(), Some(1..5));
    assert!(input.set_selected_word_range(None));
    assert_eq!(input.selected_word_range(), None);
}

#[test]
fn a_word_range_off_the_grapheme_boundaries_is_refused() {
    // Offset 1 lies between a letter and its combining mark.
    let mut input = input_with("e\u{301}xy");
    assert!(!input.set_selected_word_range(Some(1..3)));
    assert!(!input.set_selected_word_range(Some(0..1)));
    assert_eq!(input.selected_word_range(), None);
    assert!(input.set_selected_word_range(Some(0..3)));
    assert!(input.set_selected_word_range(Some(3..5)));
    assert_eq!(input.selected_word_range(), Some(3..5));
}

#[test]
fn left_and_right_move_by_graphemes() {
    let mut input = input_with("a\u{310}e\u{301}");
    assert!(input.left());
    assert_eq!(input.selected_range(), 3..3);
    assert!(input.left());
    assert_eq!(input.selected_range(), 0..0);
    assert!(input.left());
    assert_eq!(input.selected_range(), 0..0);
    assert!(input.right());
    assert_eq!(input.selected_range(), 3..3);
    assert!(input.right());
    assert!(input.right());
    assert_eq!(input.selected_range(), 6..6);
}

#[test]
fn left_and_right_collapse_a_selection() {
    let mut input = input_with("abcdef");
    input.move_to(2);
    input.select_to(4);
    input.left();
    assert_eq!(input.selected_range(), 2..2);
    input.select_to(4);
    input.right();
    assert_eq!(input.selected_range(), 4..4);
}

#[test]
fn select_left_and_right_extend_by_graphemes() {
    let mut input = input_with("abe\u{301}");
    input.move_to(2);
    input.select_right();
    assert_eq!(input.selected_range(), 2..5);
    input.select_left();
    assert_eq!(input.selected_range(), 2..2);
    input.select_left();
    assert_eq!(input.selected_range(), 1..2);
    assert!(input.selection_reversed());
    input.select_left();
    assert_eq!(input.selected_range(), 0..2);
}

#[test]
fn unselect_collapses_after_the_caret() {
    let mut input = input_with("abcdef");
    input.move_to(1);
    input.select_to(3);
    input.unselect();
    assert_eq!(input.selected_range(), 4..4);
    let mut input = input_with("abc");
    assert!(matches!(input.on_blur(), InputEvent::Blur));
    assert_eq!(input.selected_range(), 3..3);
    assert!(matches!(input.on_focus(), InputEvent::Focus));
}

#[test]
fn start_and_end_of_line() {
    let mut input = input_with("ab\ncd").multi_line();
    input.move_to(4);
    assert_eq!(input.start_of_line(), 3);
    assert_eq!(input.end_of_line(), 5);
    input.move_to(3);
    assert_eq!(input.start_of_line(), 3);
    input.move_to(1);
    assert_eq!(input.start_of_line(), 0);
    assert_eq!(input.end_of_line(), 2);
    // Just before a line break the end of the line is the place after it.
    input.move_to(2);
    assert_eq!(input.end_of_line(), 3);
    let mut single = input_with("ab\ncd");
    single.move_to(4);
    assert_eq!(single.start_of_line(), 0);
    assert_eq!(single.end_of_line(), 5);
    let empty = TextInput::new().multi_line();
    assert_eq!(empty.start_of_line(), 0);
    assert_eq!(empty.end_of_line(), 0);
}

#[test]
fn select_up_and_down_go_by_lines() {
    let mut input = input_with("ab\ncd").multi_line();
    input.move_to(4);
    input.select_up();
    assert_eq!(input.selected_range(), 2..4);
    assert!(input.selection_reversed());
    let mut input = input_with("ab\ncd").multi_line();
    input.move_to(1);
    input.select_down();
    assert_eq!(input.selected_range(), 1..4);
    let mut single = input_with("ab\ncd");
    single.move_to(4);
    single.select_up();
    single.select_down();
    assert_eq!(single.selected_range(), 4..4);
}

#[test]
fn offsets_and_ranges_cross_to_utf16_and_back() {
    let input = input_with("a\u{1F600}b");
    assert_eq!(input.offset_to_utf16(5), 3);
    assert_eq!(input.offset_from_utf16(3), 5);
    assert_eq!(input.range_to_utf16(&(1..6)), 1..4);
    assert_eq!(input.range_from_utf16(&(1..4)), 1..6);
    assert_eq!(input.next_boundary(1), 5);
    assert_eq!(input.previous_boundary(5), 1);
}

#[test]
fn text_and_selection_for_the_host() {
    let mut input = input_with("a\u{1F600}b");
    let (text, adjusted) = input.text_for_range(1..3);
    assert_eq!(text, "\u{1F600}");
    assert_eq!(adjusted, 1..3);
    // A range past the end is held within the text.
    let (text, adjusted) = input.text_for_range(0..40);
    assert_eq!(text, "a\u{1F600}b");
    assert_eq!(adjusted, 0..4);
    // An end between the two units of a scalar counts as the scalar's start.
    let (text, adjusted) = input.text_for_range(0..2);
    assert_eq!(text, "a");
    assert_eq!(adjusted, 0..1);
    let (text, adjusted) = input.text_for_range(2..2);
    assert_eq!(text, "");
    assert_eq!(adjusted, 1..1);
    // A range that runs backwards counts as the empty range at its start.
    let (text, adjusted) = input.text_for_range(std::ops::Range { start: 3, end: 1 });
    assert_eq!(text, "");
    assert_eq!(adjusted, 3..3);
    input.move_to(1);
    input.select_to(5);
    let selection = input.selected_text_range();
    assert_eq!(selection.range, 1..3);
    assert!(!selection.reversed);
}

#[test]
fn the_cursor_shows_when_focused_and_visible() {
    let input = TextInput::new();
    let mut blink = BlinkCursor::new();
    assert!(!input.show_cursor(true, &blink));
    blink.start();
    assert!(input.show_cursor(true, &blink));
    assert!(!input.show_cursor(false, &blink));
}

#[test]
fn a_single_line_input_does_not_move_vertically() {
    let mut input = input_with("abcdef");
    input.set_layout(layout_of(vec![plain_line(6)], ZERO));
    input.move_to(3);
    assert!(!input.up());
    assert!(!input.down());
    assert!(!input.move_vertical(Direction::Up));
    assert_eq!(input.selected_range(), 3..3);
}

#[test]
fn no_vertical_move_without_a_layout() {
    let mut input = input_with("ab\ncd").multi_line();
    input.move_to(1);
    assert!(!input.up());
    assert!(!input.down());
    assert_eq!(input.selected_range(), 1..1);
    // A stale layout that does not reach the caret: no move either.
    input.set_layout(layout_of(vec![plain_line(1)], ZERO));
    input.move_to(5);
    assert!(!input.down());
    assert_eq!(input.selected_range(), 5..5);
}

#[test]
fn vertical_moves_clamp_at_the_first_and_last_visual_line() {
    let mut input = input_with("abcdefgh\nab").multi_line();
    input.set_layout(layout_of(vec![wrapped_line(), plain_line(2)], ZERO));
    input.move_to(2);
    assert!(input.up());
    assert_eq!(input.selected_range(), 0..0);
    input.move_to(10);
    assert!(input.down());
    assert_eq!(input.selected_range(), 11..11);
    assert!(input.down());
    assert_eq!(input.selected_range(), 11..11);
}

#[test]
fn vertical_move_preserves_the_column() {
    let mut input = input_with("abcdef\nab").multi_line();
    input.set_layout(layout_of(vec![plain_line(6), plain_line(2)], ZERO));
    input.move_to(4);
    assert_eq!(input.preferred_x_offset(), Some(40));
    assert!(input.down());
    assert_eq!(input.selected_range(), 9..9);
    assert_eq!(input.preferred_x_offset(), Some(40));
    assert!(input.up());
    assert_eq!(input.selected_range(), 4..4);
}

#[test]
fn vertical_moves_through_a_wrapped_line() {
    let mut input = input_with("abcdefgh\nab").multi_line();
    input.set_layout(layout_of(vec![wrapped_line(), plain_line(2)], Point { x: 7, y: 9 }));
    input.move_to(2);
    assert_eq!(input.preferred_x_offset(), Some(27));
    assert!(input.down());
    assert_eq!(input.selected_range(), 6..6);
    assert!(input.down());
    assert_eq!(input.selected_range(), 11..11);
    assert!(input.up());
    assert_eq!(input.selected_range(), 6..6);
    assert!(input.up());
    assert_eq!(input.selected_range(), 2..2);
    assert!(input.move_vertical(Direction::Up));
    assert_eq!(input.selected_range(), 0..0);
    assert_eq!(input.preferred_x_offset(), Some(7));
}

#[test]
fn an_edit_clears_the_preferred_column() {
    let mut input = input_with("abcdef\nab").multi_line();
    input.set_layout(layout_of(vec![plain_line(6), plain_line(2)], ZERO));
    input.move_to(4);
    assert_eq!(input.preferred_x_offset(), Some(40));
    input.replace_text_in_range(None, "x");
    assert_eq!(input.preferred_x_offset(), None);
    input.update_preferred_x_offset();
    assert_eq!(input.preferred_x_offset(), Some(50));
}

#[test]
fn the_mouse_position_gives_an_offset() {
    let mut input = input_with("abcdefgh\nab").multi_line();
    assert_eq!(input.index_for_mouse_position(Point { x: 12, y: 25 }), 0);
    input.set_layout(layout_of(vec![wrapped_line(), plain_line(2)], ZERO));
    assert_eq!(input.index_for_mouse_position(Point { x: 12, y: 25 }), 5);
    assert_eq!(input.index_for_mouse_position(Point { x: 25, y: 45 }), 11);
    // Below the layout: held within the text.
    assert_eq!(input.index_for_mouse_position(Point { x: 0, y: 500 }), 11);
    let mut empty = TextInput::new().multi_line();
    empty.set_layout(layout_of(vec![plain_line(0)], ZERO));
    assert_eq!(empty.index_for_mouse_position(Point { x: 12, y: 25 }), 0);
    let mut single = input_with("abcdef");
    single.set_layout(layout_of(vec![plain_line(6)], ZERO));
    assert_eq!(single.index_for_mouse_position(Point { x: 36, y: 700 }), 4);
}

#[test]
fn dragging_extends_the_selection() {
    let mut input = input_with("abcdefgh\nab").multi_line();
    input.move_to(1);
    input.on_drag_move(Point { x: 12, y: 25 }, true);
    assert_eq!(input.selected_range(), 1..1);
    input.set_layout(layout_of(vec![wrapped_line(), plain_line(2)], ZERO));
    input.on_drag_move(Point { x: 12, y: 25 }, false);
    assert_eq!(input.selected_range(), 1..1);
    input.on_drag_move(Point { x: 12, y: 25 }, true);
    assert_eq!(input.selected_range(), 1..5);
    input.on_drag_move(Point { x: 0, y: 0 }, true);
    assert_eq!(input.selected_range(), 0..1);
    assert!(input.selection_reversed());
}

#[test]
fn dispatch_carries_out_edits() {
    let mut input = input_with("ab\ncd").multi_line();
    let outcome = input.dispatch(Command::Backspace);
    assert_eq!(changed_to(outcome.change.unwrap()), "ab\nc");
    assert!(!outcome.pause_blink);
    assert!(!outcome.pressed_enter);
    let outcome = input.dispatch(Command::Enter);
    assert_eq!(changed_to(outcome.change.unwrap()), "ab\nc\n");
    assert!(outcome.pressed_enter);
    input.move_to(0);
    let outcome = input.dispatch(Command::Delete);
    assert_eq!(changed_to(outcome.change.unwrap()), "b\nc\n");
    input.move_to(1);
    let outcome = input.dispatch(Command::DeleteToBeginningOfLine);
    assert_eq!(changed_to(outcome.change.unwrap()), "\nc\n");
    input.move_to(2);
    input.dispatch(Command::DeleteToBeginningOfLine);
    assert_eq!(input.text(), "\n\n");
    input.set_text("ab\ncd");
    input.move_to(0);
    let outcome = input.dispatch(Command::DeleteToEndOfLine);
    assert_eq!(changed_to(outcome.change.unwrap()), "\ncd");
}

#[test]
fn dispatch_carries_out_moves() {
    let mut input = input_with("abcdef\nab").multi_line();
    input.set_layout(layout_of(vec![plain_line(6), plain_line(2)], ZERO));
    input.move_to(4);
    let outcome = input.dispatch(Command::Left);
    assert!(outcome.pause_blink);
    assert!(outcome.change.is_none());
    assert_eq!(input.selected_range(), 3..3);
    assert!(input.dispatch(Command::Right).pause_blink);
    assert_eq!(input.selected_range(), 4..4);
    assert!(input.dispatch(Command::Down).pause_blink);
    assert_eq!(input.selected_range(), 9..9);
    assert!(input.dispatch(Command::Up).pause_blink);
    assert_eq!(input.selected_range(), 4..4);
    input.set_layout(None);
    assert!(!input.dispatch(Command::Up).pause_blink);
    assert_eq!(input.selected_range(), 4..4);
}

#[test]
fn dispatch_carries_out_selections() {
    let mut input = input_with("ab\ncd").multi_line();
    input.move_to(4);
    let outcome = input.dispatch(Command::SelectLeft);
    assert!(!outcome.pause_blink);
    assert!(outcome.change.is_none());
    assert_eq!(input.selected_range(), 3..4);
    input.dispatch(Command::SelectRight);
    assert_eq!(input.selected_range(), 4..4);
    input.dispatch(Command::SelectUp);
    assert_eq!(input.selected_range(), 2..4);
    input.move_to(1);
    input.dispatch(Command::SelectDown);
    assert_eq!(input.selected_range(), 1..4);
}

#[test]
fn dispatch_asks_for_a_redraw_when_the_command_acts() {
    let mut input = input_with("ab\ncd");
    assert!(input.dispatch(Command::Left).redraw);
    assert!(input.dispatch(Command::SelectRight).redraw);
    assert!(input.dispatch(Command::Backspace).redraw);
    assert!(!input.dispatch(Command::Up).redraw);
    assert!(!input.dispatch(Command::SelectDown).redraw);
    let mut input = input_with("ab\ncd").multi_line();
    assert!(input.dispatch(Command::SelectUp).redraw);
    assert!(!input.dispatch(Command::Down).redraw);
    input.set_layout(layout_of(vec![plain_line(2), plain_line(2)], ZERO));
    assert!(input.dispatch(Command::Down).redraw);
}

#[test]
fn what_the_input_leaves_to_the_host() {
    let mut input = input_with("abc");
    input.move_to(1);
    input.replace_and_mark_text_in_range(Some(0..1), "x", Some(0..1));
    assert_eq!(input.text(), "abc");
    assert_eq!(input.selected_range(), 1..1);
    assert_eq!(input.marked_range(), None);
    let element = Bounds { origin: Point { x: 3, y: 4 }, width: 50, height: 60 };
    let empty = Bounds { origin: Point { x: 3, y: 4 }, width: 0, height: 0 };
    assert_eq!(input.bounds_for_range(0..2, element), Some(empty));
    assert_eq!(input.character_index_for_point(Point { x: 5, y: 5 }), None);
}

#[test]
fn the_selection_stays_in_order_on_grapheme_boundaries() {
    let text = "a\u{310}e\u{301}\r\n\u{1F1F7}\u{1F1FA}z";
    let mut boundaries: Vec<usize> = text.grapheme_indices(true).map(|(i, _)| i).collect();
    boundaries.push(text.len());
    let mut input = input_with(text).multi_line();
    let holds = |input: &TextInput| {
        let range = input.selected_range();
        range.start <= range.end
            && range.end <= text.len()
            && boundaries.contains(&range.start)
            && boundaries.contains(&range.end)
    };
    assert!(holds(&input));
    for step in 0..60usize {
        let offset = (step * 7) % (text.len() + 3);
        if step % 3 == 0 {
            input.move_to(offset);
        } else {
            input.select_to(offset);
        }
        assert!(holds(&input), "after step {} to {}", step, offset);
    }
}

#[test]
fn a_vertical_move_clears_the_word_range() {
    let mut input = input_with("abcdef\nab").multi_line();
    input.set_layout(layout_of(vec![plain_line(6), plain_line(2)], ZERO));
    input.move_to(4);
    assert!(input.set_selected_word_range(Some(2..5)));
    assert!(input.set_marked_range(Some(0..1)));
    assert!(input.down());
    assert_eq!(input.selected_range(), 9..9);
    assert_eq!(input.selected_word_range(), None);
    assert_eq!(input.marked_range(), Some(0..1));
    // A move that does not act leaves the word range.
    input.set_layout(None);
    assert!(input.set_selected_word_range(Some(2..5)));
    assert!(!input.up());
    assert_eq!(input.selected_word_range(), Some(2..5));
}

#[test]
fn the_mouse_offset_of_a_single_line_is_held_within_the_text() {
    // The layout is that of a longer text than the input holds now.
    let mut input = input_with("abc");
    input.set_layout(layout_of(vec![plain_line(6)], ZERO));
    assert_eq!(input.index_for_mouse_position(Point { x: 21, y: 0 }), 2);
    assert_eq!(input.index_for_mouse_position(Point { x: 55, y: 0 }), 3);
    input.move_to(0);
    input.on_drag_move(Point { x: 55, y: 0 }, true);
    assert_eq!(input.selected_range(), 0..3);
}
