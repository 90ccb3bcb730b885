//! The text input: a buffer, the selection over it, and the commands that
//! move the cursor and edit the text.

use std::ops::Range;
use vstd::prelude::*;
use vstd::string::*;
use vstd::utf8::*;

use crate::buffer::find_line_end;
use crate::buffer::find_line_start;
use crate::buffer::lemma_line_end;
use crate::buffer::lemma_line_start;
use crate::buffer::line_end;
use crate::buffer::line_start;
use crate::buffer::splice;
use crate::buffer::spliced;
use crate::codec;
use crate::codec::byte_offset_of;
use crate::codec::is_scalar_boundary;
use crate::codec::utf16_offset_of;
use crate::grapheme;
use crate::grapheme::boundary_floor;
use crate::grapheme::first_above;
use crate::grapheme::grapheme_starts;
use crate::grapheme::is_grapheme_boundary;
use crate::grapheme::last_below;
use crate::layout::Bounds;
use crate::layout::Direction;
use crate::layout::LayoutSnapshot;
use crate::layout::Point;
use crate::layout::VerticalStep;

verus! {

/// What the input tells its observers.
#[derive(Debug)]
pub enum InputEvent {
    /// The text changed; the event carries the whole new text.
    Change(String),
    /// Enter was pressed.
    PressEnter,
    /// The input gained the focus.
    Focus,
    /// The input lost the focus.
    Blur,
}

/// The selection as the host's input protocol takes it: a range in UTF-16
/// code units.
#[derive(Debug)]
pub struct Utf16Selection {
    pub range: Range<usize>,
    pub reversed: bool,
}

/// An editing command, as a key binding of the host names it.
#[derive(Clone, Copy, Debug, PartialEq, Eq, Structural)]
pub enum Command {
    Backspace,
    Delete,
    DeleteToBeginningOfLine,
    DeleteToEndOfLine,
    Enter,
    Up,
    Down,
    Left,
    Right,
    SelectUp,
    SelectDown,
    SelectLeft,
    SelectRight,
}

/// What the host is to do after a command.
#[derive(Debug)]
pub struct Outcome {
    /// Whether the input is to be drawn again.
    pub redraw: bool,
    /// Whether the blinking cursor is to pause.
    pub pause_blink: bool,
    /// The change notification, when the command changed the text.
    pub change: Option<InputEvent>,
    /// Whether the observers are to hear that enter was pressed.
    pub pressed_enter: bool,
}

impl Command {
    /// Whether the command edits the text.
    pub open spec fn edits(&self) -> bool {
        matches!(
            *self,
            Command::Backspace | Command::Delete | Command::DeleteToBeginningOfLine
                | Command::DeleteToEndOfLine | Command::Enter
        )
    }
}

/// Where a vertical move leads.
enum Destination {
    /// The start of the text.
    Start,
    /// The end of the text.
    End,
    /// This offset, as the layout gives it.
    Offset(usize),
}

/// `range` runs forward between two scalar boundaries of `bytes`.
pub open spec fn is_valid_range(bytes: Seq<u8>, range: Range<usize>) -> bool {
    &&& range.start <= range.end
    &&& is_scalar_boundary(bytes, range.start as int)
    &&& is_scalar_boundary(bytes, range.end as int)
}

/// Both ends of `range` are grapheme boundaries of `text`.
pub open spec fn is_on_graphemes(text: Seq<char>, range: Range<usize>) -> bool {
    &&& is_grapheme_boundary(text, range.start as int)
    &&& is_grapheme_boundary(text, range.end as int)
}

/// The selection `selected` after its active end moved to `offset`, as its
/// start, its end and whether it is reversed. The active end is the start
/// when `reversed`, else the end. Ends that crossed are swapped and
/// `reversed` flips. A sticky word range then widens the selection so that it
/// covers the word.
pub open spec fn selection_after(
    selected: Range<usize>,
    reversed: bool,
    word: Option<Range<usize>>,
    offset: usize,
) -> (usize, usize, bool) {
    let start = if reversed {
        offset
    } else {
        selected.start
    };
    let end = if reversed {
        selected.end
    } else {
        offset
    };
    let low = if end < start {
        end
    } else {
        start
    };
    let high = if end < start {
        start
    } else {
        end
    };
    let now_reversed = if end < start {
        !reversed
    } else {
        reversed
    };
    match word {
        Some(w) => (
            if low > w.start {
                w.start
            } else {
                low
            },
            if high < w.end {
                w.end
            } else {
                high
            },
            now_reversed,
        ),
        None => (low, high, now_reversed),
    }
}

/// The preferred column after a recompute for a cursor at `cursor`: the
/// cursor's horizontal position in `layout` plus the layout's origin. It
/// stays as `kept` when there is no layout or the cursor lies outside it.
pub open spec fn recomputed_column(
    layout: Option<LayoutSnapshot>,
    cursor: int,
    kept: Option<i128>,
) -> Option<i128> {
    match layout {
        Some(layout) => match layout.position_of(cursor) {
            Some(position) => Some((position.point.x + layout.spec_origin().x) as i128),
            None => kept,
        },
        None => kept,
    }
}

/// The text input's state.
pub struct TextInput {
    text: String,
    multi_line: bool,
    selected_range: Range<usize>,
    selected_word_range: Option<Range<usize>>,
    selection_reversed: bool,
    marked_range: Option<Range<usize>>,
    last_layout: Option<LayoutSnapshot>,
    preferred_x_offset: Option<i128>,
}

impl TextInput {
    /// The text as a sequence of characters.
    pub closed spec fn spec_text(&self) -> Seq<char> {
        self.text@
    }

    /// The text as UTF-8 bytes, into which all offsets point.
    pub open spec fn bytes(&self) -> Seq<u8> {
        encode_utf8(self.spec_text())
    }

    /// Whether the input holds several lines.
    pub closed spec fn spec_multi_line(&self) -> bool {
        self.multi_line
    }

    /// The selected range of bytes; empty when it is only a cursor.
    pub closed spec fn spec_selected_range(&self) -> Range<usize> {
        self.selected_range
    }

    /// The word that a drag selection keeps covered.
    pub closed spec fn spec_selected_word_range(&self) -> Option<Range<usize>> {
        self.selected_word_range
    }

    /// Whether the selection's start is its active end.
    pub closed spec fn spec_selection_reversed(&self) -> bool {
        self.selection_reversed
    }

    /// The range that an input method is composing.
    pub closed spec fn spec_marked_range(&self) -> Option<Range<usize>> {
        self.marked_range
    }

    /// The layout that the host last measured.
    pub closed spec fn spec_layout(&self) -> Option<LayoutSnapshot> {
        self.last_layout
    }

    /// The column that vertical movement keeps to.
    pub closed spec fn spec_preferred_x_offset(&self) -> Option<i128> {
        self.preferred_x_offset
    }

    /// The input's invariant: the selection and the word range run forward
    /// between scalar boundaries of the text, the word range ends on
    /// grapheme boundaries, the marked range ends on scalar boundaries, the
    /// layout meets its own invariant, and the preferred column is the sum of
    /// two coordinates.
    pub open spec fn wf(&self) -> bool {
        &&& is_valid_range(self.bytes(), self.spec_selected_range())
        &&& self.spec_selected_word_range() matches Some(w) ==> is_valid_range(self.bytes(), w)
            && is_on_graphemes(self.spec_text(), w)
        &&& self.spec_marked_range() matches Some(m) ==> is_scalar_boundary(
            self.bytes(),
            m.start as int,
        ) && is_scalar_boundary(self.bytes(), m.end as int)
        &&& self.spec_layout() matches Some(layout) ==> layout.wf()
        &&& self.spec_preferred_x_offset() matches Some(column) ==> 2 * i64::MIN <= column <= 2
            * i64::MAX
    }

    /// The selection ends on grapheme boundaries.
    pub open spec fn on_graphemes(&self) -> bool {
        is_on_graphemes(self.spec_text(), self.spec_selected_range())
    }

    /// The offset at which the caret stands: the start of the selection when
    /// it is reversed, else its end.
    pub open spec fn spec_cursor_offset(&self) -> usize {
        if self.spec_selection_reversed() {
            self.spec_selected_range().start
        } else {
            self.spec_selected_range().end
        }
    }

    /// The text, the line mode and the layout are as in `before`.
    pub open spec fn same_text_as(&self, before: &TextInput) -> bool {
        &&& self.spec_text() == before.spec_text()
        &&& self.spec_multi_line() == before.spec_multi_line()
        &&& self.spec_layout() == before.spec_layout()
    }

    /// `offset` rounded down to a grapheme boundary of the text; an offset
    /// past the end gives the length.
    pub open spec fn snapped(&self, offset: int) -> int {
        boundary_floor(grapheme_starts(self.spec_text()), self.bytes().len() as int, offset)
    }

    /// Nothing differs from `before`.
    pub open spec fn unchanged_from(&self, before: &TextInput) -> bool {
        &&& self.same_text_as(before)
        &&& self.spec_selected_range() == before.spec_selected_range()
        &&& self.spec_selection_reversed() == before.spec_selection_reversed()
        &&& self.spec_selected_word_range() == before.spec_selected_word_range()
        &&& self.spec_marked_range() == before.spec_marked_range()
        &&& self.spec_preferred_x_offset() == before.spec_preferred_x_offset()
    }

    /// This state comes from `before` by `move_to(offset)`: the selection is
    /// a cursor at `offset` rounded down to a grapheme boundary, the word
    /// range and the marked range are cleared, and the preferred column is
    /// recomputed for the new cursor.
    pub open spec fn moved_to(&self, before: &TextInput, offset: int) -> bool {
        &&& self.same_text_as(before)
        &&& self.spec_selected_range().start == before.snapped(offset)
        &&& self.spec_selected_range().end == before.snapped(offset)
        &&& self.spec_selection_reversed() == before.spec_selection_reversed()
        &&& self.spec_selected_word_range() is None
        &&& self.spec_marked_range() is None
        &&& self.spec_preferred_x_offset() == recomputed_column(
            before.spec_layout(),
            before.snapped(offset),
            before.spec_preferred_x_offset(),
        )
    }

    /// This state comes from `before` by `select_to(offset)`: the active end
    /// of the selection stands at `offset` rounded down to a grapheme
    /// boundary, with crossed ends swapped and the word range covered; the
    /// preferred column is recomputed when only a cursor is left.
    pub open spec fn selected_to(&self, before: &TextInput, offset: int) -> bool {
        &&& self.same_text_as(before)
        &&& self.spec_selected_word_range() == before.spec_selected_word_range()
        &&& self.spec_marked_range() == before.spec_marked_range()
        &&& (
            self.spec_selected_range().start,
            self.spec_selected_range().end,
            self.spec_selection_reversed(),
        ) == selection_after(
            before.spec_selected_range(),
            before.spec_selection_reversed(),
            before.spec_selected_word_range(),
            before.snapped(offset) as usize,
        )
        &&& self.spec_preferred_x_offset() == if self.spec_selected_range().start
            == self.spec_selected_range().end {
            recomputed_column(
                before.spec_layout(),
                self.spec_cursor_offset() as int,
                before.spec_preferred_x_offset(),
            )
        } else {
            before.spec_preferred_x_offset()
        }
    }

    /// An empty single-line input with the cursor at 0.
    pub fn new() -> (r: Self)
        ensures
            r.wf(),
            r.spec_text() == Seq::<char>::empty(),
            !r.spec_multi_line(),
            r.spec_selected_range() == (0usize..0usize),
            r.spec_selected_word_range() is None,
            !r.spec_selection_reversed(),
            r.spec_marked_range() is None,
            r.spec_layout() is None,
            r.spec_preferred_x_offset() is None,
            r.on_graphemes(),
    {
        let r = Self {
            text: String::new(),
            multi_line: false,
            selected_range: 0..0,
            selected_word_range: None,
            selection_reversed: false,
            marked_range: None,
            last_layout: None,
            preferred_x_offset: None,
        };
        assert(encode_utf8(r.text@) =~= Seq::<u8>::empty());
        r
    }

    /// The offset at which the caret stands.
    pub fn cursor_offset(&self) -> (r: usize)
        ensures
            r == self.spec_cursor_offset(),
    {
        if self.selection_reversed {
            self.selected_range.start
        } else {
            self.selected_range.end
        }
    }
}

impl TextInput {
    /// The smallest grapheme boundary of the text after `offset`, or the
    /// length of the text.
    pub fn next_boundary(&self, offset: usize) -> (r: usize)
        ensures
            r == first_above(
                grapheme_starts(self.spec_text()),
                self.bytes().len() as int,
                offset as int,
            ),
            is_grapheme_boundary(self.spec_text(), r as int),
            is_scalar_boundary(self.bytes(), r as int),
            offset < r || r == self.bytes().len(),
    {
        grapheme::next_boundary(self.text.as_str(), offset)
    }

    /// The largest grapheme boundary of the text before `offset`, or 0.
    pub fn previous_boundary(&self, offset: usize) -> (r: usize)
        ensures
            r == last_below(grapheme_starts(self.spec_text()), offset as int),
            is_grapheme_boundary(self.spec_text(), r as int),
            is_scalar_boundary(self.bytes(), r as int),
            r < offset || r == 0,
    {
        grapheme::previous_boundary(self.text.as_str(), offset)
    }

    /// The byte offset for an offset in UTF-16 code units.
    pub fn offset_from_utf16(&self, offset: usize) -> (r: usize)
        ensures
            r == byte_offset_of(self.bytes(), offset as int),
            is_scalar_boundary(self.bytes(), r as int),
    {
        codec::offset_from_utf16(self.text.as_str(), offset)
    }

    /// The offset in UTF-16 code units for a byte offset.
    pub fn offset_to_utf16(&self, offset: usize) -> (r: usize)
        ensures
            r == utf16_offset_of(self.bytes(), offset as int),
    {
        codec::offset_to_utf16(self.text.as_str(), offset)
    }

    /// The byte range for a range in UTF-16 code units, end by end.
    pub fn range_from_utf16(&self, range_utf16: &Range<usize>) -> (r: Range<usize>)
        ensures
            r.start == byte_offset_of(self.bytes(), range_utf16.start as int),
            r.end == byte_offset_of(self.bytes(), range_utf16.end as int),
            is_scalar_boundary(self.bytes(), r.start as int),
            is_scalar_boundary(self.bytes(), r.end as int),
    {
        self.offset_from_utf16(range_utf16.start)..self.offset_from_utf16(range_utf16.end)
    }

    /// The range in UTF-16 code units for a byte range, end by end.
    pub fn range_to_utf16(&self, range: &Range<usize>) -> (r: Range<usize>)
        ensures
            r.start == utf16_offset_of(self.bytes(), range.start as int),
            r.end == utf16_offset_of(self.bytes(), range.end as int),
    {
        self.offset_to_utf16(range.start)..self.offset_to_utf16(range.end)
    }

    /// Recomputes the preferred column from the cursor's place in the layout.
    pub fn update_preferred_x_offset(&mut self)
        requires
            old(self).wf(),
        ensures
            final(self).spec_preferred_x_offset() == recomputed_column(
                old(self).spec_layout(),
                old(self).spec_cursor_offset() as int,
                old(self).spec_preferred_x_offset(),
            ),
            final(self).same_text_as(old(self)),
            final(self).spec_selected_range() == old(self).spec_selected_range(),
            final(self).spec_selection_reversed() == old(self).spec_selection_reversed(),
            final(self).spec_selected_word_range() == old(self).spec_selected_word_range(),
            final(self).spec_marked_range() == old(self).spec_marked_range(),
    {
        let offset = self.cursor_offset();
        match &self.last_layout {
            Some(layout) => {
                match layout.line_and_position_for_offset(offset) {
                    Some(position) => {
                        let column = position.point.x as i128 + layout.origin().x as i128;
                        self.preferred_x_offset = Some(column);
                    },
                    None => {},
                }
            },
            None => {},
        }
    }

    /// Moves the active end of the selection to `offset`, rounded down to a
    /// grapheme boundary of the text. Ends that cross swap their roles; a
    /// sticky word range stays covered. When only a cursor is left, the
    /// preferred column is recomputed.
    pub fn select_to(&mut self, offset: usize)
        requires
            old(self).wf(),
        ensures
            final(self).wf(),
            final(self).selected_to(old(self), offset as int),
            old(self).on_graphemes() ==> final(self).on_graphemes(),
            is_grapheme_boundary(old(self).spec_text(), offset as int) ==> old(self).snapped(
                offset as int,
            ) == offset,
            old(self).snapped(offset as int) <= offset,
    {
        let offset = grapheme::snap_to_boundary(self.text.as_str(), offset);
        let mut start = self.selected_range.start;
        let mut end = self.selected_range.end;
        if self.selection_reversed {
            start = offset;
        } else {
            end = offset;
        }
        if end < start {
            self.selection_reversed = !self.selection_reversed;
            let low = end;
            end = start;
            start = low;
        }
        match &self.selected_word_range {
            Some(word_range) => {
                if start > word_range.start {
                    start = word_range.start;
                }
                if end < word_range.end {
                    end = word_range.end;
                }
            },
            None => {},
        }
        self.selected_range = start..end;
        if start == end {
            self.update_preferred_x_offset();
        }
    }

    /// Collapses the selection to a cursor at `offset`, rounded down to a
    /// grapheme boundary of the text. The word range and the marked range are
    /// cleared and the preferred column is recomputed. Returns whether the
    /// blinking cursor is to pause, which it always is.
    pub fn move_to(&mut self, offset: usize) -> (pause_blink: bool)
        requires
            old(self).wf(),
        ensures
            pause_blink,
            final(self).wf(),
            final(self).on_graphemes(),
            final(self).moved_to(old(self), offset as int),
            is_grapheme_boundary(old(self).spec_text(), offset as int) ==> old(self).snapped(
                offset as int,
            ) == offset,
            old(self).snapped(offset as int) <= offset,
    {
        let offset = grapheme::snap_to_boundary(self.text.as_str(), offset);
        self.selected_range = offset..offset;
        self.selected_word_range = None;
        self.marked_range = None;
        self.update_preferred_x_offset();
        true
    }

    /// Collapses the selection to a cursor at the next grapheme boundary
    /// after the caret, and clears the word range.
    pub fn unselect(&mut self)
        requires
            old(self).wf(),
        ensures
            final(self).wf(),
            final(self).on_graphemes(),
            final(self).same_text_as(old(self)),
            final(self).spec_selected_range().start == first_above(
                grapheme_starts(old(self).spec_text()),
                old(self).bytes().len() as int,
                old(self).spec_cursor_offset() as int,
            ),
            final(self).spec_selected_range().end == final(self).spec_selected_range().start,
            final(self).spec_selection_reversed() == old(self).spec_selection_reversed(),
            final(self).spec_selected_word_range() is None,
            final(self).spec_marked_range() == old(self).spec_marked_range(),
            final(self).spec_preferred_x_offset() == old(self).spec_preferred_x_offset(),
    {
        let offset = self.next_boundary(self.cursor_offset());
        self.selected_range = offset..offset;
        self.selected_word_range = None;
    }
}

impl TextInput {
    /// The range that an edit replaces: the given range, decoded from UTF-16
    /// code units; else the marked range; else the selection.
    pub open spec fn edit_target(&self, range: Option<Range<usize>>) -> (int, int) {
        match range {
            Some(r) => (
                byte_offset_of(self.bytes(), r.start as int),
                byte_offset_of(self.bytes(), r.end as int),
            ),
            None => match self.spec_marked_range() {
                Some(m) => (m.start as int, m.end as int),
                None => (
                    self.spec_selected_range().start as int,
                    self.spec_selected_range().end as int,
                ),
            },
        }
    }

    /// This state comes from `before` by replacing the bytes from `start` up
    /// to `end` with `insert`: the text is spliced, the cursor stands right
    /// after the inserted bytes, and the word range, the marked range and the
    /// preferred column are cleared.
    pub open spec fn replaced(
        &self,
        before: &TextInput,
        start: int,
        end: int,
        insert: Seq<u8>,
    ) -> bool {
        &&& self.bytes() == spliced(before.bytes(), start, end, insert)
        &&& self.spec_selected_range().start == start + insert.len()
        &&& self.spec_selected_range().end == start + insert.len()
        &&& self.spec_selected_word_range() is None
        &&& self.spec_marked_range() is None
        &&& self.spec_preferred_x_offset() is None
        &&& self.spec_multi_line() == before.spec_multi_line()
        &&& self.spec_layout() == before.spec_layout()
    }

    /// Replaces the bytes from `start` up to `end` with `new_text`.
    fn replace_bytes(&mut self, start: usize, end: usize, new_text: &str) -> (r: InputEvent)
        requires
            old(self).wf(),
            is_scalar_boundary(old(self).bytes(), start as int),
            is_scalar_boundary(old(self).bytes(), end as int),
        ensures
            final(self).wf(),
            final(self).replaced(old(self), start as int, end as int, new_text.spec_bytes()),
            final(self).spec_selection_reversed() == old(self).spec_selection_reversed(),
            r matches InputEvent::Change(t) && t@ == final(self).spec_text(),
    {
        let pending = splice(self.text.as_str(), start, end, new_text);
        let ghost before = self.bytes();
        let ghost after = spliced(before, start as int, end as int, new_text.spec_bytes());
        let len = pending.as_str().as_bytes().len();
        let cursor = start + new_text.as_bytes().len();
        proof {
            assert(after.len() == start + new_text.spec_bytes().len() + (before.len() - end));
            if cursor < after.len() {
                assert(after[cursor as int] == before[end as int]);
            }
        }
        self.text = pending;
        self.selected_range = cursor..cursor;
        self.selected_word_range = None;
        self.marked_range = None;
        self.preferred_x_offset = None;
        InputEvent::Change(self.text.clone())
    }

    /// Replaces the text in a range with `new_text` and puts the cursor right
    /// after it. The range is `range`, given in UTF-16 code units, else the
    /// marked range, else the selection. Returns the change notification,
    /// which carries the whole new text.
    pub fn replace_text_in_range(&mut self, range: Option<Range<usize>>, new_text: &str) -> (r:
        InputEvent)
        requires
            old(self).wf(),
        ensures
            final(self).wf(),
            final(self).replaced(
                old(self),
                old(self).edit_target(range).0,
                old(self).edit_target(range).1,
                new_text.spec_bytes(),
            ),
            final(self).spec_selection_reversed() == old(self).spec_selection_reversed(),
            r matches InputEvent::Change(t) && t@ == final(self).spec_text(),
    {
        let target = match &range {
            Some(range_utf16) => self.range_from_utf16(range_utf16),
            None => match &self.marked_range {
                Some(marked) => marked.start..marked.end,
                None => self.selected_range.start..self.selected_range.end,
            },
        };
        self.replace_bytes(target.start, target.end, new_text)
    }
}

impl TextInput {
    /// The selection that backspace or delete removes when it extends a bare
    /// cursor to the grapheme boundary `boundary`: the selection itself when
    /// it is not empty, else the selection after `select_to(boundary)`.
    pub open spec fn extended_to(&self, boundary: int) -> (usize, usize, bool) {
        if self.spec_selected_range().start == self.spec_selected_range().end {
            selection_after(
                self.spec_selected_range(),
                self.spec_selection_reversed(),
                self.spec_selected_word_range(),
                boundary as usize,
            )
        } else {
            (
                self.spec_selected_range().start,
                self.spec_selected_range().end,
                self.spec_selection_reversed(),
            )
        }
    }

    /// The range that an edit without an explicit range replaces when the
    /// selection is from `start` to `end`: the marked range if there is one,
    /// else that selection.
    pub open spec fn marked_or(&self, start: usize, end: usize) -> (int, int) {
        match self.spec_marked_range() {
            Some(m) => (m.start as int, m.end as int),
            None => (start as int, end as int),
        }
    }

    /// This state comes from `before` by backspace: the marked range, else the
    /// selection, is deleted; a bare cursor first extends back to the previous
    /// grapheme boundary.
    pub open spec fn erased_back(&self, before: &TextInput) -> bool {
        let (start, end, reversed) = before.extended_to(
            last_below(grapheme_starts(before.spec_text()), before.spec_cursor_offset() as int),
        );
        let (from, to) = before.marked_or(start, end);
        &&& self.replaced(before, from, to, Seq::<u8>::empty())
        &&& self.spec_selection_reversed() == reversed
    }

    /// This state comes from `before` by delete: the marked range, else the
    /// selection, is deleted; a bare cursor first extends forward to the next
    /// grapheme boundary.
    pub open spec fn erased_forward(&self, before: &TextInput) -> bool {
        let (start, end, reversed) = before.extended_to(
            first_above(
                grapheme_starts(before.spec_text()),
                before.bytes().len() as int,
                before.spec_cursor_offset() as int,
            ),
        );
        let (from, to) = before.marked_or(start, end);
        &&& self.replaced(before, from, to, Seq::<u8>::empty())
        &&& self.spec_selection_reversed() == reversed
    }

    /// This state comes from `before` by deleting from the start of the
    /// caret's line up to the caret.
    pub open spec fn killed_to_line_start(&self, before: &TextInput) -> bool {
        &&& self.replaced(
            before,
            line_start(before.bytes(), before.spec_cursor_offset() as int),
            before.spec_cursor_offset() as int,
            Seq::<u8>::empty(),
        )
        &&& self.spec_selection_reversed() == before.spec_selection_reversed()
    }

    /// This state comes from `before` by deleting from the caret up to the
    /// end of the caret's line.
    pub open spec fn killed_to_line_end(&self, before: &TextInput) -> bool {
        &&& self.replaced(
            before,
            before.spec_cursor_offset() as int,
            line_end(before.bytes(), before.spec_cursor_offset() as int),
            Seq::<u8>::empty(),
        )
        &&& self.spec_selection_reversed() == before.spec_selection_reversed()
    }

    /// This state comes from `before` by putting a line break in the place of
    /// the marked range, else of the selection.
    pub open spec fn broke_line(&self, before: &TextInput) -> bool {
        &&& self.replaced(
            before,
            before.edit_target(None).0,
            before.edit_target(None).1,
            seq![crate::buffer::LINE_BREAK],
        )
        &&& self.spec_selection_reversed() == before.spec_selection_reversed()
    }

    /// Deletes the selection; a bare cursor first extends back to the
    /// previous grapheme boundary.
    pub fn backspace(&mut self) -> (r: InputEvent)
        requires
            old(self).wf(),
        ensures
            final(self).wf(),
            final(self).erased_back(old(self)),
            r matches InputEvent::Change(t) && t@ == final(self).spec_text(),
    {
        if self.selected_range.start == self.selected_range.end {
            let boundary = self.previous_boundary(self.cursor_offset());
            self.select_to(boundary);
        }
        let empty = "";
        proof {
            reveal_strlit("");
            assert(empty.spec_bytes() =~= Seq::<u8>::empty());
        }
        self.replace_text_in_range(None, empty)
    }

    /// Deletes the selection; a bare cursor first extends forward to the
    /// next grapheme boundary.
    pub fn delete(&mut self) -> (r: InputEvent)
        requires
            old(self).wf(),
        ensures
            final(self).wf(),
            final(self).erased_forward(old(self)),
            r matches InputEvent::Change(t) && t@ == final(self).spec_text(),
    {
        if self.selected_range.start == self.selected_range.end {
            let boundary = self.next_boundary(self.cursor_offset());
            self.select_to(boundary);
        }
        let empty = "";
        proof {
            reveal_strlit("");
            assert(empty.spec_bytes() =~= Seq::<u8>::empty());
        }
        self.replace_text_in_range(None, empty)
    }

    /// Deletes from the start of the caret's line up to the caret.
    pub fn delete_beginning_of_line(&mut self) -> (r: InputEvent)
        requires
            old(self).wf(),
        ensures
            final(self).wf(),
            final(self).killed_to_line_start(old(self)),
            r matches InputEvent::Change(t) && t@ == final(self).spec_text(),
    {
        let offset = self.cursor_offset();
        let start = find_line_start(self.text.as_str(), offset);
        let empty = "";
        proof {
            reveal_strlit("");
            assert(empty.spec_bytes() =~= Seq::<u8>::empty());
            encode_utf8_valid_utf8(self.text@);
            lemma_line_start(self.bytes(), offset as int);
        }
        self.replace_bytes(start, offset, empty)
    }

    /// Deletes from the caret up to the end of the caret's line; the line
    /// break stays.
    pub fn delete_end_of_line(&mut self) -> (r: InputEvent)
        requires
            old(self).wf(),
        ensures
            final(self).wf(),
            final(self).killed_to_line_end(old(self)),
            r matches InputEvent::Change(t) && t@ == final(self).spec_text(),
    {
        let offset = self.cursor_offset();
        let end = find_line_end(self.text.as_str(), offset);
        let empty = "";
        proof {
            reveal_strlit("");
            assert(empty.spec_bytes() =~= Seq::<u8>::empty());
            lemma_line_end(self.bytes(), offset as int);
        }
        self.replace_bytes(offset, end, empty)
    }

    /// Puts a line break in the place of the marked range or the selection.
    /// Returns the change notification and the notice that enter was pressed.
    pub fn enter(&mut self) -> (r: (InputEvent, InputEvent))
        requires
            old(self).wf(),
        ensures
            final(self).wf(),
            final(self).broke_line(old(self)),
            r.0 matches InputEvent::Change(t) && t@ == final(self).spec_text(),
            r.1 is PressEnter,
    {
        let line_break = "\n";
        proof {
            reveal_strlit("\n");
            lemma_line_break_bytes(line_break@);
        }
        let change = self.replace_text_in_range(None, line_break);
        (change, InputEvent::PressEnter)
    }

    /// Replaces the whole text with `text` and puts the cursor at its end.
    pub fn set_text(&mut self, text: &str) -> (r: InputEvent)
        requires
            old(self).wf(),
        ensures
            final(self).wf(),
            final(self).spec_text() == text@,
            final(self).replaced(
                old(self),
                0,
                old(self).bytes().len() as int,
                text.spec_bytes(),
            ),
            final(self).spec_selection_reversed() == old(self).spec_selection_reversed(),
            r matches InputEvent::Change(t) && t@ == final(self).spec_text(),
    {
        let len = self.text.as_str().as_bytes().len();
        let range = 0..self.offset_to_utf16(len);
        proof {
            let bytes = self.bytes();
            encode_utf8_valid_utf8(self.text@);
            is_char_boundary_start_end_of_seq(bytes);
            codec::lemma_scalar_boundary_is_char_boundary(bytes, 0);
            codec::lemma_round_trip(bytes, 0);
            codec::lemma_round_trip(bytes, len as int);
            assert(bytes.take(0) =~= Seq::<u8>::empty());
            assert(spliced(bytes, 0, len as int, text.spec_bytes()) =~= text.spec_bytes());
        }
        let r = self.replace_text_in_range(Some(range), text);
        proof {
            encode_utf8_decode_utf8(self.text@);
            encode_utf8_decode_utf8(text@);
        }
        r
    }
}

/// A text of the one character line break is encoded as the one byte
/// `LINE_BREAK`.
proof fn lemma_line_break_bytes(text: Seq<char>)
    requires
        text.len() == 1,
        text[0] == '\n',
    ensures
        encode_utf8(text) == seq![crate::buffer::LINE_BREAK],
{
    let rest = text.drop_first();
    assert(rest.len() == 0);
    assert(encode_utf8(rest) =~= Seq::<u8>::empty());
    let scalar = text[0] as u32;
    assert(scalar == 0x0a);
    assert((0x0au32 & 0x7f) as u8 == 0x0au8) by (bit_vector);
    assert(encode_utf8(text) =~= seq![crate::buffer::LINE_BREAK]);
}

impl TextInput {
    /// This state comes from `before` by a step to the left: a bare cursor
    /// moves to the previous grapheme boundary, a selection collapses to its
    /// start.
    pub open spec fn stepped_left(&self, before: &TextInput) -> bool {
        self.moved_to(
            before,
            if before.spec_selected_range().start == before.spec_selected_range().end {
                last_below(grapheme_starts(before.spec_text()), before.spec_cursor_offset() as int)
            } else {
                before.spec_selected_range().start as int
            },
        )
    }

    /// This state comes from `before` by a step to the right: a bare cursor
    /// moves to the next grapheme boundary, a selection collapses to its end.
    pub open spec fn stepped_right(&self, before: &TextInput) -> bool {
        self.moved_to(
            before,
            if before.spec_selected_range().start == before.spec_selected_range().end {
                first_above(
                    grapheme_starts(before.spec_text()),
                    before.bytes().len() as int,
                    before.spec_selected_range().end as int,
                )
            } else {
                before.spec_selected_range().end as int
            },
        )
    }

    /// This state comes from `before` by moving the active end of the
    /// selection to the previous grapheme boundary.
    pub open spec fn extended_left(&self, before: &TextInput) -> bool {
        self.selected_to(
            before,
            last_below(grapheme_starts(before.spec_text()), before.spec_cursor_offset() as int),
        )
    }

    /// This state comes from `before` by moving the active end of the
    /// selection to the next grapheme boundary.
    pub open spec fn extended_right(&self, before: &TextInput) -> bool {
        self.selected_to(
            before,
            first_above(
                grapheme_starts(before.spec_text()),
                before.bytes().len() as int,
                before.spec_cursor_offset() as int,
            ),
        )
    }

    /// Moves the cursor one grapheme to the left; a selection collapses to
    /// its start. Returns whether the blinking cursor is to pause.
    pub fn left(&mut self) -> (pause_blink: bool)
        requires
            old(self).wf(),
        ensures
            pause_blink,
            final(self).wf(),
            final(self).on_graphemes(),
            final(self).stepped_left(old(self)),
    {
        if self.selected_range.start == self.selected_range.end {
            let offset = self.previous_boundary(self.cursor_offset());
            self.move_to(offset)
        } else {
            self.move_to(self.selected_range.start)
        }
    }

    /// Moves the cursor one grapheme to the right; a selection collapses to
    /// its end. Returns whether the blinking cursor is to pause.
    pub fn right(&mut self) -> (pause_blink: bool)
        requires
            old(self).wf(),
        ensures
            pause_blink,
            final(self).wf(),
            final(self).on_graphemes(),
            final(self).stepped_right(old(self)),
    {
        if self.selected_range.start == self.selected_range.end {
            let offset = self.next_boundary(self.selected_range.end);
            self.move_to(offset)
        } else {
            self.move_to(self.selected_range.end)
        }
    }

    /// Extends the selection one grapheme to the left.
    pub fn select_left(&mut self)
        requires
            old(self).wf(),
        ensures
            final(self).wf(),
            final(self).extended_left(old(self)),
            old(self).on_graphemes() ==> final(self).on_graphemes(),
    {
        let offset = self.previous_boundary(self.cursor_offset());
        self.select_to(offset);
    }

    /// Extends the selection one grapheme to the right.
    pub fn select_right(&mut self)
        requires
            old(self).wf(),
        ensures
            final(self).wf(),
            final(self).extended_right(old(self)),
            old(self).on_graphemes() ==> final(self).on_graphemes(),
    {
        let offset = self.next_boundary(self.cursor_offset());
        self.select_to(offset);
    }

    /// The start of the caret's line: 0 in a single-line input, else the
    /// start of the line that holds the grapheme before the caret.
    pub open spec fn spec_start_of_line(&self) -> int {
        if !self.spec_multi_line() {
            0
        } else {
            let before = last_below(
                grapheme_starts(self.spec_text()),
                self.spec_cursor_offset() as int,
            );
            line_start(
                self.bytes(),
                if before + 1 > self.bytes().len() {
                    self.bytes().len() as int
                } else {
                    before + 1
                },
            )
        }
    }

    /// The start of the caret's line.
    pub fn start_of_line(&self) -> (r: usize)
        requires
            self.wf(),
        ensures
            r == self.spec_start_of_line(),
            r <= self.bytes().len(),
    {
        if !self.multi_line {
            return 0;
        }
        let len = self.text.as_str().as_bytes().len();
        let offset = self.previous_boundary(self.cursor_offset());
        let upto = if offset < len {
            offset + 1
        } else {
            len
        };
        find_line_start(self.text.as_str(), upto)
    }

    /// The end of the caret's line: the length of the text in a single-line
    /// input. Else, with `next` the grapheme boundary after the caret: `next`
    /// itself when a line break stands right before it, else the place of
    /// the first line break at or after `next`.
    pub open spec fn spec_end_of_line(&self) -> int {
        if !self.spec_multi_line() {
            self.bytes().len() as int
        } else {
            let next = first_above(
                grapheme_starts(self.spec_text()),
                self.bytes().len() as int,
                self.spec_cursor_offset() as int,
            );
            if next > 0 && self.bytes()[next - 1] == crate::buffer::LINE_BREAK {
                next
            } else {
                line_end(self.bytes(), next)
            }
        }
    }

    /// The end of the caret's line.
    pub fn end_of_line(&self) -> (r: usize)
        requires
            self.wf(),
        ensures
            r == self.spec_end_of_line(),
            r <= self.bytes().len(),
    {
        let len = self.text.as_str().as_bytes().len();
        if !self.multi_line {
            return len;
        }
        let offset = self.next_boundary(self.cursor_offset());
        if offset > 0 && self.text.as_str().as_bytes()[offset - 1] == crate::buffer::LINE_BREAK {
            return offset;
        }
        find_line_end(self.text.as_str(), offset)
    }

    /// This state comes from `before` by moving the active end of the
    /// selection to the place before the start of the caret's line, which is
    /// the end of the line above. A single-line input stays as it is.
    pub open spec fn extended_up(&self, before: &TextInput) -> bool {
        if before.spec_multi_line() {
            self.selected_to(
                before,
                if before.spec_start_of_line() > 0 {
                    before.spec_start_of_line() - 1
                } else {
                    0
                },
            )
        } else {
            self.unchanged_from(before)
        }
    }

    /// This state comes from `before` by moving the active end of the
    /// selection to the grapheme boundary after the place that follows the
    /// end of the caret's line. A single-line input stays as it is.
    pub open spec fn extended_down(&self, before: &TextInput) -> bool {
        if before.spec_multi_line() {
            self.selected_to(
                before,
                first_above(
                    grapheme_starts(before.spec_text()),
                    before.bytes().len() as int,
                    if before.spec_end_of_line() < before.bytes().len() {
                        before.spec_end_of_line() + 1
                    } else {
                        before.bytes().len() as int
                    },
                ),
            )
        } else {
            self.unchanged_from(before)
        }
    }

    /// Extends the selection up to the end of the line above the caret's
    /// line. A single-line input stays as it is.
    pub fn select_up(&mut self)
        requires
            old(self).wf(),
        ensures
            final(self).wf(),
            final(self).extended_up(old(self)),
            old(self).on_graphemes() ==> final(self).on_graphemes(),
    {
        if !self.multi_line {
            return ;
        }
        let start = self.start_of_line();
        let offset = if start > 0 {
            start - 1
        } else {
            0
        };
        self.select_to(offset);
    }

    /// Extends the selection down past the end of the caret's line, to the
    /// grapheme boundary after the place that follows the line's end. A
    /// single-line input stays as it is.
    pub fn select_down(&mut self)
        requires
            old(self).wf(),
        ensures
            final(self).wf(),
            final(self).extended_down(old(self)),
            old(self).on_graphemes() ==> final(self).on_graphemes(),
    {
        if !self.multi_line {
            return ;
        }
        let len = self.text.as_str().as_bytes().len();
        let end = self.end_of_line();
        let offset = if end < len {
            end + 1
        } else {
            len
        };
        let boundary = self.next_boundary(offset);
        self.select_to(boundary);
    }
}

impl TextInput {
    /// The column that a vertical move keeps to: the preferred column if one
    /// is remembered, else the horizontal position `x` of the caret plus the
    /// origin of `layout`.
    pub open spec fn column_for(&self, layout: LayoutSnapshot, x: int) -> int {
        match self.spec_preferred_x_offset() {
            Some(column) => column as int,
            None => x + layout.spec_origin().x,
        }
    }

    /// This state comes from `before` by a vertical move in `direction`: a
    /// single-line input, one without a layout, and one whose caret lies
    /// outside the layout stay as they are. Else the step leads from the
    /// caret's sub-line: to the start of the text, to its end, or onto a
    /// sub-line, where the cursor goes to the offset at the kept column,
    /// held within the text and rounded down to a grapheme boundary; the
    /// word range is cleared and the preferred column stays.
    pub open spec fn moved_vertically(&self, before: &TextInput, direction: Direction) -> bool {
        if !before.spec_multi_line() || before.spec_layout() is None {
            self.unchanged_from(before)
        } else {
            let layout = before.spec_layout()->0;
            match layout.position_of(before.spec_cursor_offset() as int) {
                None => self.unchanged_from(before),
                Some(position) => match layout.step_from(
                    position.line_index as int,
                    position.sub_line_index as int,
                    direction,
                ) {
                    VerticalStep::DocumentStart => self.moved_to(before, 0),
                    VerticalStep::DocumentEnd => self.moved_to(before, before.bytes().len() as int),
                    VerticalStep::SubLine { line_index, sub_line_index } => {
                        let column = before.column_for(layout, position.point.x as int);
                        let found = layout.offset_at(
                            line_index as int,
                            sub_line_index as int,
                            column - layout.spec_origin().x,
                        );
                        let target = before.snapped(
                            if found > before.bytes().len() {
                                before.bytes().len() as int
                            } else {
                                found
                            },
                        );
                        &&& self.same_text_as(before)
                        &&& self.spec_selected_range().start == target
                        &&& self.spec_selected_range().end == target
                        &&& self.spec_selection_reversed() == before.spec_selection_reversed()
                        &&& self.spec_selected_word_range() is None
                        &&& self.spec_marked_range() == before.spec_marked_range()
                        &&& self.spec_preferred_x_offset() == before.spec_preferred_x_offset()
                    },
                },
            }
        }
    }

    /// Whether a vertical move from this state acts: the input holds several
    /// lines and the caret lies in the layout.
    pub open spec fn can_move_vertically(&self) -> bool {
        &&& self.spec_multi_line()
        &&& self.spec_layout() matches Some(layout) && layout.position_of(
            self.spec_cursor_offset() as int,
        ) is Some
    }

    /// Where a vertical move acts, up from the first visual line leaves the
    /// cursor at offset 0, and down from the last visual line leaves it at
    /// the length of the text.
    pub open spec fn clamped_at_the_edges(&self, before: &TextInput, direction: Direction) -> bool {
        before.can_move_vertically() ==> {
            let layout = before.spec_layout()->0;
            let position = layout.position_of(before.spec_cursor_offset() as int)->0;
            &&& direction == Direction::Up && position.line_index == 0 && position.sub_line_index
                == 0 ==> self.spec_selected_range().start == 0 && self.spec_selected_range().end
                == 0
            &&& direction == Direction::Down && position.line_index + 1
                == layout.spec_lines().len() && position.sub_line_index
                == layout.spec_lines()[position.line_index as int].spec_wrap_count()
                ==> self.spec_selected_range().start == before.bytes().len()
                && self.spec_selected_range().end == before.bytes().len()
        }
    }

    /// Where a vertical move in `direction` leads, if it acts: the start or
    /// the end of the text, or the offset that the layout gives for the kept
    /// column on the sub-line one step away.
    fn destination(&self, direction: Direction) -> (r: Option<Destination>)
        requires
            self.wf(),
        ensures
            r is Some <==> self.can_move_vertically(),
            self.can_move_vertically() ==> {
                let layout = self.spec_layout()->0;
                let position = layout.position_of(self.spec_cursor_offset() as int)->0;
                match layout.step_from(
                    position.line_index as int,
                    position.sub_line_index as int,
                    direction,
                ) {
                    VerticalStep::DocumentStart => r->0 is Start,
                    VerticalStep::DocumentEnd => r->0 is End,
                    VerticalStep::SubLine { line_index, sub_line_index } => {
                        &&& r->0 is Offset
                        &&& r->0->Offset_0 == layout.offset_at(
                            line_index as int,
                            sub_line_index as int,
                            self.column_for(layout, position.point.x as int)
                                - layout.spec_origin().x,
                        )
                    },
                }
            },
    {
        if !self.multi_line {
            return None;
        }
        match &self.last_layout {
            None => None,
            Some(layout) => {
                match layout.line_and_position_for_offset(self.cursor_offset()) {
                    None => None,
                    Some(position) => {
                        let origin_x = layout.origin().x as i128;
                        let current_x = match self.preferred_x_offset {
                            Some(column) => column,
                            None => position.point.x as i128 + origin_x,
                        };
                        let step = layout.vertical_step(
                            position.line_index,
                            position.sub_line_index,
                            direction,
                        );
                        match step {
                            VerticalStep::DocumentStart => Some(Destination::Start),
                            VerticalStep::DocumentEnd => Some(Destination::End),
                            VerticalStep::SubLine { line_index, sub_line_index } => Some(
                                Destination::Offset(
                                    layout.offset_for_position(
                                        line_index,
                                        sub_line_index,
                                        current_x - origin_x,
                                    ),
                                ),
                            ),
                        }
                    },
                }
            },
        }
    }

    /// Moves the cursor one visual line up or down, keeping to the preferred
    /// column. Up from the first visual line leads to the start of the text,
    /// down from the last one to its end. Returns whether the blinking cursor
    /// is to pause, which it is when the move acted.
    pub fn move_vertical(&mut self, direction: Direction) -> (pause_blink: bool)
        requires
            old(self).wf(),
        ensures
            final(self).wf(),
            final(self).moved_vertically(old(self), direction),
            pause_blink == old(self).can_move_vertically(),
            final(self).clamped_at_the_edges(old(self), direction),
            old(self).can_move_vertically() ==> final(self).on_graphemes(),
    {
        let len = self.text.as_str().as_bytes().len();
        match self.destination(direction) {
            None => false,
            Some(Destination::Start) => self.move_to(0),
            Some(Destination::End) => self.move_to(len),
            Some(Destination::Offset(found)) => {
                let new_offset = if found > len {
                    len
                } else {
                    found
                };
                let target = grapheme::snap_to_boundary(self.text.as_str(), new_offset);
                self.selected_range = target..target;
                self.selected_word_range = None;
                true
            },
        }
    }

    /// Moves the cursor one visual line up. A single-line input stays as it
    /// is.
    pub fn up(&mut self) -> (pause_blink: bool)
        requires
            old(self).wf(),
        ensures
            final(self).wf(),
            final(self).moved_vertically(old(self), Direction::Up),
            pause_blink == old(self).can_move_vertically(),
            final(self).clamped_at_the_edges(old(self), Direction::Up),
            old(self).can_move_vertically() ==> final(self).on_graphemes(),
    {
        if !self.multi_line {
            return false;
        }
        self.move_vertical(Direction::Up)
    }

    /// Moves the cursor one visual line down. A single-line input stays as
    /// it is.
    pub fn down(&mut self) -> (pause_blink: bool)
        requires
            old(self).wf(),
        ensures
            final(self).wf(),
            final(self).moved_vertically(old(self), Direction::Down),
            pause_blink == old(self).can_move_vertically(),
            final(self).clamped_at_the_edges(old(self), Direction::Down),
            old(self).can_move_vertically() ==> final(self).on_graphemes(),
    {
        if !self.multi_line {
            return false;
        }
        self.move_vertical(Direction::Down)
    }

    /// The offset for a pointer at `position`: 0 in an empty text or without
    /// a layout; in a single-line input the index of the first line nearest
    /// to the pointer; else the offset of the layout nearest to the pointer;
    /// either held within the text.
    pub open spec fn spec_index_for_mouse_position(&self, position: Point) -> int {
        if self.bytes().len() == 0 || self.spec_layout() is None {
            0
        } else {
            let found = if self.spec_multi_line() {
                self.spec_layout()->0.offset_near(position)
            } else {
                self.spec_layout()->0.index_near_in_first_line(position)
            };
            if found > self.bytes().len() {
                self.bytes().len() as int
            } else {
                found
            }
        }
    }

    /// The offset for a pointer at `position`.
    pub fn index_for_mouse_position(&self, position: Point) -> (r: usize)
        requires
            self.wf(),
        ensures
            r == self.spec_index_for_mouse_position(position),
            r <= self.bytes().len(),
    {
        let len = self.text.as_str().as_bytes().len();
        if len == 0 {
            return 0;
        }
        match &self.last_layout {
            None => 0,
            Some(layout) => {
                let index = if self.multi_line {
                    layout.offset_for_point(position)
                } else {
                    layout.closest_index_in_first_line(position)
                };
                if index > len {
                    len
                } else {
                    index
                }
            },
        }
    }

    /// Extends the selection to the pointer while it drags. Nothing happens
    /// in an empty text, without a layout, or when the input is not focused.
    pub fn on_drag_move(&mut self, position: Point, focused: bool)
        requires
            old(self).wf(),
        ensures
            final(self).wf(),
            if old(self).bytes().len() == 0 || old(self).spec_layout() is None || !focused {
                final(self).unchanged_from(old(self))
            } else {
                final(self).selected_to(
                    old(self),
                    old(self).spec_index_for_mouse_position(position),
                )
            },
            old(self).on_graphemes() ==> final(self).on_graphemes(),
    {
        if self.text.as_str().as_bytes().len() == 0 {
            return ;
        }
        if self.last_layout.is_none() {
            return ;
        }
        if !focused {
            return ;
        }
        let offset = self.index_for_mouse_position(position);
        self.select_to(offset);
    }
}

impl TextInput {
    /// The byte range of which `text_for_range` gives the text: `range_utf16`
    /// decoded end by end; a range that runs backwards counts as the empty
    /// range at its start.
    pub open spec fn text_range(&self, range_utf16: Range<usize>) -> (int, int) {
        let start = byte_offset_of(self.bytes(), range_utf16.start as int);
        if range_utf16.end < range_utf16.start {
            (start, start)
        } else {
            (start, byte_offset_of(self.bytes(), range_utf16.end as int))
        }
    }

    /// The text of the range `range_utf16`, given in UTF-16 code units, and
    /// the range that the text truly covers, in UTF-16 code units again, as
    /// the host takes the adjusted range.
    pub fn text_for_range(&self, range_utf16: Range<usize>) -> (r: (String, Range<usize>))
        ensures
            ({
                let (start, end) = self.text_range(range_utf16);
                &&& 0 <= start <= end <= self.bytes().len()
                &&& encode_utf8(r.0@) == self.bytes().subrange(start, end)
                &&& r.1.start == utf16_offset_of(self.bytes(), start)
                &&& r.1.end == utf16_offset_of(self.bytes(), end)
            }),
    {
        let start = self.offset_from_utf16(range_utf16.start);
        let end = if range_utf16.end < range_utf16.start {
            start
        } else {
            self.offset_from_utf16(range_utf16.end)
        };
        let adjusted = self.offset_to_utf16(start)..self.offset_to_utf16(end);
        let text = self.text.as_str();
        proof {
            let bytes = self.bytes();
            if range_utf16.start <= range_utf16.end {
                codec::lemma_byte_offset_monotone(
                    bytes,
                    range_utf16.start as int,
                    range_utf16.end as int,
                    bytes.len() as int,
                );
            }
            encode_utf8_valid_utf8(self.text@);
            codec::lemma_scalar_boundary_is_char_boundary(bytes, start as int);
        }
        let (_, tail) = text.split_at(start);
        proof {
            let bytes = self.bytes();
            let rest = tail.spec_bytes();
            assert(rest =~= bytes.subrange(start as int, bytes.len() as int));
            encode_utf8_valid_utf8(tail@);
            if end < bytes.len() {
                assert(rest[end - start] == bytes[end as int]);
            }
            codec::lemma_scalar_boundary_is_char_boundary(rest, end - start);
        }
        let (middle, _) = tail.split_at(end - start);
        proof {
            assert(middle.spec_bytes() =~= self.bytes().subrange(start as int, end as int));
        }
        (String::from_str(middle), adjusted)
    }

    /// The selection in UTF-16 code units, for the host; it is never given
    /// as reversed.
    pub fn selected_text_range(&self) -> (r: Utf16Selection)
        ensures
            r.range.start == utf16_offset_of(
                self.bytes(),
                self.spec_selected_range().start as int,
            ),
            r.range.end == utf16_offset_of(self.bytes(), self.spec_selected_range().end as int),
            !r.reversed,
    {
        Utf16Selection { range: self.range_to_utf16(&self.selected_range), reversed: false }
    }

    /// The marked range in UTF-16 code units, if there is one.
    pub fn marked_text_range(&self) -> (r: Option<Range<usize>>)
        ensures
            r is Some <==> self.spec_marked_range() is Some,
            r is Some ==> r->0.start == utf16_offset_of(
                self.bytes(),
                self.spec_marked_range()->0.start as int,
            ) && r->0.end == utf16_offset_of(
                self.bytes(),
                self.spec_marked_range()->0.end as int,
            ),
    {
        match &self.marked_range {
            Some(range) => Some(self.range_to_utf16(range)),
            None => None,
        }
    }

    /// Forgets the marked range.
    pub fn unmark_text(&mut self)
        ensures
            final(self).spec_marked_range() is None,
            final(self).same_text_as(old(self)),
            final(self).spec_selected_range() == old(self).spec_selected_range(),
            final(self).spec_selection_reversed() == old(self).spec_selection_reversed(),
            final(self).spec_selected_word_range() == old(self).spec_selected_word_range(),
            final(self).spec_preferred_x_offset() == old(self).spec_preferred_x_offset(),
            old(self).wf() ==> final(self).wf(),
    {
        self.marked_range = None;
    }

    /// Replaces a range and marks the new text as being composed. Composition
    /// is left to the host: the input stays as it is.
    pub fn replace_and_mark_text_in_range(
        &mut self,
        _range: Option<Range<usize>>,
        _new_text: &str,
        _new_selected_range: Option<Range<usize>>,
    )
        ensures
            final(self).unchanged_from(old(self)),
    {
    }

    /// The bounds of a range of the text within `element_bounds`: measuring
    /// is left to the host, which gets the empty rectangle at the origin of
    /// the element.
    pub fn bounds_for_range(&self, _range_utf16: Range<usize>, element_bounds: Bounds) -> (r: Option<
        Bounds,
    >)
        ensures
            r == Some(Bounds { origin: element_bounds.origin, width: 0, height: 0 }),
    {
        Some(Bounds { origin: element_bounds.origin, width: 0, height: 0 })
    }

    /// The index of the character at a point of the window, which the input
    /// does not tell.
    pub fn character_index_for_point(&self, _point: Point) -> (r: Option<usize>)
        ensures
            r is None,
    {
        None
    }

    /// The input gained the focus. Returns the notice for the observers.
    pub fn on_focus(&self) -> (r: InputEvent)
        ensures
            r is Focus,
    {
        InputEvent::Focus
    }

    /// The input lost the focus: the selection collapses as in `unselect`.
    /// Returns the notice for the observers.
    pub fn on_blur(&mut self) -> (r: InputEvent)
        requires
            old(self).wf(),
        ensures
            r is Blur,
            final(self).wf(),
            final(self).on_graphemes(),
            final(self).same_text_as(old(self)),
            final(self).spec_selected_range().start == first_above(
                grapheme_starts(old(self).spec_text()),
                old(self).bytes().len() as int,
                old(self).spec_cursor_offset() as int,
            ),
            final(self).spec_selected_range().end == final(self).spec_selected_range().start,
            final(self).spec_selection_reversed() == old(self).spec_selection_reversed(),
            final(self).spec_selected_word_range() is None,
            final(self).spec_marked_range() == old(self).spec_marked_range(),
            final(self).spec_preferred_x_offset() == old(self).spec_preferred_x_offset(),
    {
        self.unselect();
        InputEvent::Blur
    }

    /// Whether the cursor shows: the input is focused and the blinking cursor
    /// is visible.
    pub fn show_cursor(&self, focused: bool, blink_cursor: &crate::blink_cursor::BlinkCursor) -> (r:
        bool)
        ensures
            r == (focused && blink_cursor.spec_visible()),
    {
        focused && blink_cursor.visible()
    }
}

impl TextInput {
    /// Whether `offset` is a scalar boundary of the text.
    fn is_boundary(&self, offset: usize) -> (r: bool)
        ensures
            r == is_scalar_boundary(self.bytes(), offset as int),
    {
        proof {
            encode_utf8_valid_utf8(self.text@);
            if offset <= self.bytes().len() {
                codec::lemma_scalar_boundary_is_char_boundary(self.bytes(), offset as int);
            }
        }
        self.text.as_str().is_char_boundary(offset)
    }

    /// The input as one that holds several lines.
    pub fn multi_line(self) -> (r: Self)
        ensures
            r.spec_multi_line(),
            r.spec_text() == self.spec_text(),
            r.spec_layout() == self.spec_layout(),
            r.spec_selected_range() == self.spec_selected_range(),
            r.spec_selection_reversed() == self.spec_selection_reversed(),
            r.spec_selected_word_range() == self.spec_selected_word_range(),
            r.spec_marked_range() == self.spec_marked_range(),
            r.spec_preferred_x_offset() == self.spec_preferred_x_offset(),
    {
        let mut r = self;
        r.multi_line = true;
        r
    }

    /// Whether the input holds a single line.
    pub fn is_single_line(&self) -> (r: bool)
        ensures
            r == !self.spec_multi_line(),
    {
        !self.multi_line
    }

    /// Whether the input holds several lines.
    pub fn is_multi_line(&self) -> (r: bool)
        ensures
            r == self.spec_multi_line(),
    {
        self.multi_line
    }

    /// The text.
    pub fn text(&self) -> (r: &str)
        ensures
            r@ == self.spec_text(),
    {
        self.text.as_str()
    }

    /// The selected range of bytes.
    pub fn selected_range(&self) -> (r: Range<usize>)
        ensures
            r == self.spec_selected_range(),
    {
        self.selected_range.start..self.selected_range.end
    }

    /// Whether the selection's start is its active end.
    pub fn selection_reversed(&self) -> (r: bool)
        ensures
            r == self.spec_selection_reversed(),
    {
        self.selection_reversed
    }

    /// The word that a drag selection keeps covered.
    pub fn selected_word_range(&self) -> (r: Option<Range<usize>>)
        ensures
            r == self.spec_selected_word_range(),
    {
        match &self.selected_word_range {
            Some(range) => Some(range.start..range.end),
            None => None,
        }
    }

    /// The range that an input method is composing.
    pub fn marked_range(&self) -> (r: Option<Range<usize>>)
        ensures
            r == self.spec_marked_range(),
    {
        match &self.marked_range {
            Some(range) => Some(range.start..range.end),
            None => None,
        }
    }

    /// The column that vertical movement keeps to.
    pub fn preferred_x_offset(&self) -> (r: Option<i128>)
        ensures
            r == self.spec_preferred_x_offset(),
    {
        self.preferred_x_offset
    }

    /// Takes the layout that the host measured, or forgets the last one.
    pub fn set_layout(&mut self, layout: Option<LayoutSnapshot>)
        requires
            layout matches Some(l) ==> l.wf(),
        ensures
            final(self).spec_layout() == layout,
            final(self).spec_text() == old(self).spec_text(),
            final(self).spec_multi_line() == old(self).spec_multi_line(),
            final(self).spec_selected_range() == old(self).spec_selected_range(),
            final(self).spec_selection_reversed() == old(self).spec_selection_reversed(),
            final(self).spec_selected_word_range() == old(self).spec_selected_word_range(),
            final(self).spec_marked_range() == old(self).spec_marked_range(),
            final(self).spec_preferred_x_offset() == old(self).spec_preferred_x_offset(),
            old(self).wf() ==> final(self).wf(),
    {
        self.last_layout = layout;
    }

    /// Sets the word that a drag selection keeps covered, or clears it. A
    /// range that does not run forward between grapheme boundaries of the
    /// text is refused, and the input stays as it is. Returns whether the
    /// range was taken.
    pub fn set_selected_word_range(&mut self, range: Option<Range<usize>>) -> (taken: bool)
        requires
            old(self).wf(),
        ensures
            final(self).wf(),
            taken == (range matches Some(w) ==> w.start <= w.end && is_on_graphemes(
                old(self).spec_text(),
                w,
            )),
            old(self).on_graphemes() ==> final(self).on_graphemes(),
            final(self).spec_selected_word_range() == if taken {
                range
            } else {
                old(self).spec_selected_word_range()
            },
            final(self).same_text_as(old(self)),
            final(self).spec_selected_range() == old(self).spec_selected_range(),
            final(self).spec_selection_reversed() == old(self).spec_selection_reversed(),
            final(self).spec_marked_range() == old(self).spec_marked_range(),
            final(self).spec_preferred_x_offset() == old(self).spec_preferred_x_offset(),
    {
        let taken = match &range {
            Some(word) => word.start <= word.end && grapheme::snap_to_boundary(
                self.text.as_str(),
                word.start,
            ) == word.start && grapheme::snap_to_boundary(self.text.as_str(), word.end)
                == word.end,
            None => true,
        };
        if taken {
            self.selected_word_range = range;
        }
        taken
    }

    /// Sets the range that an input method is composing, or clears it. A
    /// range whose ends are not scalar boundaries of the text is refused, and
    /// the input stays as it is. Returns whether the range was taken.
    pub fn set_marked_range(&mut self, range: Option<Range<usize>>) -> (taken: bool)
        requires
            old(self).wf(),
        ensures
            final(self).wf(),
            taken == (range matches Some(m) ==> is_scalar_boundary(
                old(self).bytes(),
                m.start as int,
            ) && is_scalar_boundary(old(self).bytes(), m.end as int)),
            final(self).spec_marked_range() == if taken {
                range
            } else {
                old(self).spec_marked_range()
            },
            final(self).same_text_as(old(self)),
            final(self).spec_selected_range() == old(self).spec_selected_range(),
            final(self).spec_selection_reversed() == old(self).spec_selection_reversed(),
            final(self).spec_selected_word_range() == old(self).spec_selected_word_range(),
            final(self).spec_preferred_x_offset() == old(self).spec_preferred_x_offset(),
    {
        let taken = match &range {
            Some(marked) => self.is_boundary(marked.start) && self.is_boundary(marked.end),
            None => true,
        };
        if taken {
            self.marked_range = range;
        }
        taken
    }
}

impl TextInput {
    /// This state comes from `before` by `command`.
    pub open spec fn follows(&self, before: &TextInput, command: Command) -> bool {
        match command {
            Command::Backspace => self.erased_back(before),
            Command::Delete => self.erased_forward(before),
            Command::DeleteToBeginningOfLine => self.killed_to_line_start(before),
            Command::DeleteToEndOfLine => self.killed_to_line_end(before),
            Command::Enter => self.broke_line(before),
            Command::Up => self.moved_vertically(before, Direction::Up),
            Command::Down => self.moved_vertically(before, Direction::Down),
            Command::Left => self.stepped_left(before),
            Command::Right => self.stepped_right(before),
            Command::SelectUp => self.extended_up(before),
            Command::SelectDown => self.extended_down(before),
            Command::SelectLeft => self.extended_left(before),
            Command::SelectRight => self.extended_right(before),
        }
    }

    /// Whether `command` pauses the blinking cursor: a step to the left or
    /// the right always does, a step up or down when it acts.
    pub open spec fn pauses_blink(&self, command: Command) -> bool {
        match command {
            Command::Left | Command::Right => true,
            Command::Up | Command::Down => self.can_move_vertically(),
            _ => false,
        }
    }

    /// Whether the input is to be drawn again after `command`: always, but
    /// for a vertical step that does not act and for a selection by lines in
    /// a single-line input.
    pub open spec fn redraws(&self, command: Command) -> bool {
        match command {
            Command::Up | Command::Down => self.can_move_vertically(),
            Command::SelectUp | Command::SelectDown => self.spec_multi_line(),
            _ => true,
        }
    }

    /// Carries out `command` and says what the host is to do after it.
    pub fn dispatch(&mut self, command: Command) -> (r: Outcome)
        requires
            old(self).wf(),
        ensures
            final(self).wf(),
            final(self).follows(old(self), command),
            r.redraw == old(self).redraws(command),
            r.pause_blink == old(self).pauses_blink(command),
            r.change is Some <==> command.edits(),
            r.change matches Some(InputEvent::Change(t)) ==> t@ == final(self).spec_text(),
            r.change is Some ==> r.change->0 is Change,
            r.pressed_enter == (command == Command::Enter),
    {
        match command {
            Command::Backspace => {
                let change = self.backspace();
                Outcome { redraw: true, pause_blink: false, change: Some(change), pressed_enter: false }
            },
            Command::Delete => {
                let change = self.delete();
                Outcome { redraw: true, pause_blink: false, change: Some(change), pressed_enter: false }
            },
            Command::DeleteToBeginningOfLine => {
                let change = self.delete_beginning_of_line();
                Outcome { redraw: true, pause_blink: false, change: Some(change), pressed_enter: false }
            },
            Command::DeleteToEndOfLine => {
                let change = self.delete_end_of_line();
                Outcome { redraw: true, pause_blink: false, change: Some(change), pressed_enter: false }
            },
            Command::Enter => {
                let (change, _) = self.enter();
                Outcome { redraw: true, pause_blink: false, change: Some(change), pressed_enter: true }
            },
            Command::Up => {
                let pause_blink = self.up();
                Outcome { redraw: pause_blink, pause_blink, change: None, pressed_enter: false }
            },
            Command::Down => {
                let pause_blink = self.down();
                Outcome { redraw: pause_blink, pause_blink, change: None, pressed_enter: false }
            },
            Command::Left => {
                let pause_blink = self.left();
                Outcome { redraw: true, pause_blink, change: None, pressed_enter: false }
            },
            Command::Right => {
                let pause_blink = self.right();
                Outcome { redraw: true, pause_blink, change: None, pressed_enter: false }
            },
            Command::SelectUp => {
                let redraw = self.multi_line;
                self.select_up();
                Outcome { redraw, pause_blink: false, change: None, pressed_enter: false }
            },
            Command::SelectDown => {
                let redraw = self.multi_line;
                self.select_down();
                Outcome { redraw, pause_blink: false, change: None, pressed_enter: false }
            },
            Command::SelectLeft => {
                self.select_left();
                Outcome { redraw: true, pause_blink: false, change: None, pressed_enter: false }
            },
            Command::SelectRight => {
                self.select_right();
                Outcome { redraw: true, pause_blink: false, change: None, pressed_enter: false }
            },
        }
    }
}

/// While the input meets its invariant and its selection is on graphemes,
/// as it is after `new` and stays under `select_to` and `move_to`, the
/// selection runs forward within the text and both its ends are grapheme
/// boundaries.
pub proof fn selection_invariant(input: &TextInput)
    requires
        input.wf(),
        input.on_graphemes(),
    ensures
        input.spec_selected_range().start <= input.spec_selected_range().end,
        input.spec_selected_range().end <= input.bytes().len(),
        is_grapheme_boundary(input.spec_text(), input.spec_selected_range().start as int),
        is_grapheme_boundary(input.spec_text(), input.spec_selected_range().end as int),
{
}

impl Default for TextInput {
    fn default() -> (r: Self)
        ensures
            r.wf(),
            r.on_graphemes(),
            r.spec_text() == Seq::<char>::empty(),
    {
        Self::new()
    }
}

} // verus!
