//! The wrapped layout of a text as the host measured it: logical lines, each
//! broken into one or more visual sub-lines, with the places at which the
//! caret can stand. Coordinates are integers in the host's layout unit.

use smallvec::SmallVec;
use vstd::prelude::*;

verus! {

/// A position in layout units.
#[derive(Clone, Copy, Debug, PartialEq, Eq, Structural)]
pub struct Point {
    pub x: i64,
    pub y: i64,
}

/// A rectangle in layout units.
#[derive(Clone, Copy, Debug, PartialEq, Eq, Structural)]
pub struct Bounds {
    pub origin: Point,
    pub width: i64,
    pub height: i64,
}

/// A place at which the caret can stand in a wrapped line: before the byte at
/// `index`, on visual sub-line `sub_line`, at horizontal position `x`.
///
/// Each sub-line lists the start of every glyph and then its own end. The end
/// of a sub-line that wraps has the index of the next sub-line's first glyph.
#[derive(Clone, Copy, Debug, PartialEq, Eq, Structural)]
pub struct CaretStop {
    pub index: usize,
    pub sub_line: usize,
    pub x: i64,
}

/// What a query for the index at a position found.
#[derive(Clone, Copy, Debug, PartialEq, Eq, Structural)]
pub enum IndexResult {
    /// The position lies within the text of the sub-line, at this index.
    FoundAt(usize),
    /// The position lies past the end of the sub-line, which is at this index.
    ClampedToLineEnd(usize),
}

impl IndexResult {
    /// The index found, whichever way.
    pub open spec fn spec_index(&self) -> usize {
        match *self {
            IndexResult::FoundAt(i) => i,
            IndexResult::ClampedToLineEnd(i) => i,
        }
    }

    /// The index found, whichever way.
    pub fn index(&self) -> (r: usize)
        ensures
            r == self.spec_index(),
    {
        match *self {
            IndexResult::FoundAt(i) => i,
            IndexResult::ClampedToLineEnd(i) => i,
        }
    }
}

/// A vertical direction of cursor movement.
#[derive(Clone, Copy, Debug, PartialEq, Eq, Structural)]
pub enum Direction {
    Up,
    Down,
}

/// Where one step up or down from a sub-line leads.
#[derive(Clone, Copy, Debug, PartialEq, Eq, Structural)]
pub enum VerticalStep {
    /// Up from the first sub-line of the first line: the start of the text.
    DocumentStart,
    /// Down from the last sub-line of the last line: the end of the text.
    DocumentEnd,
    /// A sub-line of a line.
    SubLine { line_index: usize, sub_line_index: usize },
}

/// Where an offset lies in a layout.
#[derive(Clone, Copy, Debug, PartialEq, Eq, Structural)]
pub struct LinePosition {
    /// The logical line.
    pub line_index: usize,
    /// The visual sub-line within that line.
    pub sub_line_index: usize,
    /// The caret's position, measured from the top of the first line.
    pub point: Point,
}

/// The stops of one logical line of `len` bytes are in order: they begin at
/// index 0 on sub-line 0 and end at index `len`; from one stop to the next the
/// sub-line stays or rises by one and the index does not fall; within a
/// sub-line the index rises and `x` does not fall.
pub open spec fn stops_wf(stops: Seq<CaretStop>, len: int) -> bool {
    &&& stops.len() > 0
    &&& stops[0].index == 0
    &&& stops[0].sub_line == 0
    &&& stops.last().index == len
    &&& forall|i: int| 0 <= i < stops.len() - 1 ==> steps_in_order(#[trigger] stops[i], stops[i + 1])
}

/// `b` may follow `a` among the stops of a line.
pub open spec fn steps_in_order(a: CaretStop, b: CaretStop) -> bool {
    &&& a.sub_line <= b.sub_line <= a.sub_line + 1
    &&& a.index <= b.index
    &&& a.sub_line == b.sub_line ==> a.index < b.index && a.x <= b.x
}

/// The place of the last of `stops` whose index is at most `index`, or -1.
pub open spec fn last_stop_upto(stops: Seq<CaretStop>, index: int) -> int
    decreases stops.len(),
{
    if stops.len() == 0 {
        -1
    } else if stops.last().index <= index {
        stops.len() - 1
    } else {
        last_stop_upto(stops.drop_last(), index)
    }
}

/// The place of the first of `stops` on sub-line `sub_line`, or -1.
pub open spec fn first_on_sub_line(stops: Seq<CaretStop>, sub_line: int) -> int
    decreases stops.len(),
{
    if stops.len() == 0 {
        -1
    } else if first_on_sub_line(stops.drop_last(), sub_line) >= 0 {
        first_on_sub_line(stops.drop_last(), sub_line)
    } else if stops.last().sub_line == sub_line {
        stops.len() - 1
    } else {
        -1
    }
}

/// The place of the last of `stops` on sub-line `sub_line`, or -1.
pub open spec fn last_on_sub_line(stops: Seq<CaretStop>, sub_line: int) -> int
    decreases stops.len(),
{
    if stops.len() == 0 {
        -1
    } else if stops.last().sub_line == sub_line {
        stops.len() - 1
    } else {
        last_on_sub_line(stops.drop_last(), sub_line)
    }
}

/// The place of the last of `stops` on sub-line `sub_line` that stands at or
/// left of `x`, or -1.
pub open spec fn last_left_of(stops: Seq<CaretStop>, sub_line: int, x: int) -> int
    decreases stops.len(),
{
    if stops.len() == 0 {
        -1
    } else if stops.last().sub_line == sub_line && stops.last().x <= x {
        stops.len() - 1
    } else {
        last_left_of(stops.drop_last(), sub_line, x)
    }
}

/// The index at horizontal position `x` on sub-line `sub_line` of a line with
/// these stops and `len` bytes.
///
/// At or past the end of the sub-line the answer is the sub-line's end; past
/// the last sub-line it is the end of the line. Otherwise it is the index of
/// the glyph that covers `x`, the sub-line's first glyph when `x` lies left
/// of it.
pub open spec fn index_at(stops: Seq<CaretStop>, len: int, sub_line: int, x: int) -> IndexResult {
    let end = last_on_sub_line(stops, sub_line);
    let hit = last_left_of(stops, sub_line, x);
    if end < 0 {
        IndexResult::ClampedToLineEnd(len as usize)
    } else if x >= stops[end].x {
        IndexResult::ClampedToLineEnd(stops[end].index)
    } else if hit >= 0 {
        IndexResult::FoundAt(stops[hit].index)
    } else {
        IndexResult::FoundAt(stops[first_on_sub_line(stops, sub_line)].index)
    }
}

/// As `index_at`, but of the two stops around `x` the nearer one; the left
/// one when both are equally near.
pub open spec fn closest_index_at(
    stops: Seq<CaretStop>,
    len: int,
    sub_line: int,
    x: int,
) -> IndexResult {
    let end = last_on_sub_line(stops, sub_line);
    let hit = last_left_of(stops, sub_line, x);
    if end < 0 {
        IndexResult::ClampedToLineEnd(len as usize)
    } else if x >= stops[end].x {
        IndexResult::ClampedToLineEnd(stops[end].index)
    } else if hit < 0 {
        IndexResult::FoundAt(stops[first_on_sub_line(stops, sub_line)].index)
    } else if stops[hit + 1].x - x < x - stops[hit].x {
        IndexResult::FoundAt(stops[hit + 1].index)
    } else {
        IndexResult::FoundAt(stops[hit].index)
    }
}

/// The place that an optional place stands for, -1 for none.
pub open spec fn place_of(place: Option<usize>) -> int {
    match place {
        Some(i) => i as int,
        None => -1,
    }
}

/// Along the stops of a line neither the sub-line nor the index falls, and no
/// index lies past the end of the line.
pub proof fn lemma_stops_monotone(stops: Seq<CaretStop>, len: int, i: int, j: int)
    requires
        stops_wf(stops, len),
        0 <= i <= j < stops.len(),
    ensures
        stops[i].sub_line <= stops[j].sub_line,
        stops[i].index <= stops[j].index,
        stops[j].index <= len,
{
    lemma_stops_rise(stops, len, i, j);
    lemma_stops_rise(stops, len, j, stops.len() - 1);
}

/// From an earlier stop to a later one neither the sub-line nor the index
/// falls.
proof fn lemma_stops_rise(stops: Seq<CaretStop>, len: int, i: int, j: int)
    requires
        stops_wf(stops, len),
        0 <= i <= j < stops.len(),
    ensures
        stops[i].sub_line <= stops[j].sub_line,
        stops[i].index <= stops[j].index,
    decreases j - i,
{
    if i < j {
        lemma_stops_rise(stops, len, i, j - 1);
        assert(steps_in_order(stops[j - 1], stops[j]));
    }
}

/// Every sub-line up to the last one has a stop.
proof fn lemma_sub_line_present(stops: Seq<CaretStop>, len: int, sub_line: int, upto: int)
    requires
        stops_wf(stops, len),
        0 <= upto < stops.len(),
        0 <= sub_line <= stops[upto].sub_line,
    ensures
        last_on_sub_line(stops.take(upto + 1), sub_line) >= 0,
    decreases upto,
{
    assert(stops.take(upto + 1).last() == stops[upto]);
    assert(stops.take(upto + 1).drop_last() =~= stops.take(upto));
    if stops[upto].sub_line != sub_line {
        if upto == 0 {
        } else {
            assert(steps_in_order(stops[upto - 1], stops[upto]));
            lemma_sub_line_present(stops, len, sub_line, upto - 1);
        }
    }
}

/// One logical line of text as the host wrapped it.
pub struct WrappedLine {
    len: usize,
    stops: Vec<CaretStop>,
}

impl WrappedLine {
    /// The line's invariant: its stops are in order for its length.
    pub closed spec fn wf(&self) -> bool {
        stops_wf(self.stops@, self.len as int)
    }

    /// The length of the line in bytes, its line break not counted.
    pub closed spec fn spec_len(&self) -> int {
        self.len as int
    }

    /// The caret stops of the line.
    pub closed spec fn spec_stops(&self) -> Seq<CaretStop> {
        self.stops@
    }

    /// The number of wrap breaks: one less than the number of sub-lines.
    pub open spec fn spec_wrap_count(&self) -> int {
        self.spec_stops().last().sub_line as int
    }

    /// A line of `len` bytes with the given stops, if they are in order.
    pub fn new(len: usize, stops: Vec<CaretStop>) -> (r: Option<WrappedLine>)
        ensures
            r is Some <==> stops_wf(stops@, len as int),
            r is Some ==> r->0.wf() && r->0.spec_len() == len && r->0.spec_stops() == stops@,
    {
        let n = stops.len();
        if n == 0 {
            return None;
        }
        if stops[0].index != 0 || stops[0].sub_line != 0 || stops[n - 1].index != len {
            return None;
        }
        let mut i: usize = 0;
        while i < n - 1
            invariant
                n == stops@.len(),
                n > 0,
                i <= n - 1,
                forall|j: int| 0 <= j < i ==> steps_in_order(#[trigger] stops@[j], stops@[j + 1]),
            decreases n - i,
        {
            let a = stops[i];
            let b = stops[i + 1];
            let rises = a.sub_line <= b.sub_line && b.sub_line - a.sub_line <= 1;
            let same_ok = a.sub_line != b.sub_line || (a.index < b.index && a.x <= b.x);
            if !(rises && a.index <= b.index && same_ok) {
                assert(!steps_in_order(stops@[i as int], stops@[i + 1]));
                return None;
            }
            i += 1;
        }
        Some(WrappedLine { len, stops })
    }

    /// The stop at which the caret stands before the byte at `index`: the last
    /// stop whose index is at most `index`. None when `index` lies past the
    /// end of the line.
    pub fn position_for_index(&self, index: usize) -> (r: Option<CaretStop>)
        requires
            self.wf(),
        ensures
            r is Some <==> index <= self.spec_len(),
            r is Some ==> 0 <= last_stop_upto(self.spec_stops(), index as int)
                < self.spec_stops().len(),
            r is Some ==> r->0 == self.spec_stops()[last_stop_upto(
                self.spec_stops(),
                index as int,
            )],
            r is Some ==> r->0.sub_line <= self.spec_wrap_count(),
    {
        if index > self.len {
            return None;
        }
        let n = self.stops.len();
        let mut best: usize = 0;
        let mut i: usize = 1;
        assert(self.stops@.take(1).drop_last() =~= self.stops@.take(0));
        assert(last_stop_upto(self.stops@.take(0), index as int) == -1);
        while i < n
            invariant
                self.wf(),
                n == self.stops@.len(),
                1 <= i <= n,
                best < i,
                best == last_stop_upto(self.stops@.take(i as int), index as int),
            decreases n - i,
        {
            assert(self.stops@.take(i + 1).drop_last() =~= self.stops@.take(i as int));
            if self.stops[i].index <= index {
                best = i;
            }
            i += 1;
        }
        proof {
            assert(self.stops@.take(n as int) =~= self.stops@);
            lemma_stops_monotone(self.stops@, self.len as int, best as int, n - 1);
        }
        Some(self.stops[best])
    }

    /// The first and the last stop on sub-line `sub_line`, and the last stop
    /// on it that stands at or left of `x`.
    fn scan_sub_line(&self, sub_line: usize, x: i128) -> (r: (
        Option<usize>,
        Option<usize>,
        Option<usize>,
    ))
        requires
            self.wf(),
        ensures
            place_of(r.0) == first_on_sub_line(self.spec_stops(), sub_line as int),
            place_of(r.1) == last_on_sub_line(self.spec_stops(), sub_line as int),
            place_of(r.2) == last_left_of(self.spec_stops(), sub_line as int, x as int),
            r.0 is Some <==> r.1 is Some,
            r.1 is Some ==> r.0->0 <= r.1->0 < self.spec_stops().len(),
            r.2 is Some ==> r.1 is Some && r.0->0 <= r.2->0 <= r.1->0,
            r.2 is Some ==> self.spec_stops()[r.2->0 as int].x <= x,
            r.2 is Some && r.2->0 < r.1->0 ==> self.spec_stops()[r.2->0 + 1].sub_line == sub_line,
            sub_line <= self.spec_wrap_count() ==> r.1 is Some,
    {
        let n = self.stops.len();
        let mut first: Option<usize> = None;
        let mut end: Option<usize> = None;
        let mut hit: Option<usize> = None;
        let mut i: usize = 0;
        while i < n
            invariant
                self.wf(),
                n == self.stops@.len(),
                i <= n,
                place_of(first) == first_on_sub_line(self.stops@.take(i as int), sub_line as int),
                place_of(end) == last_on_sub_line(self.stops@.take(i as int), sub_line as int),
                place_of(hit) == last_left_of(
                    self.stops@.take(i as int),
                    sub_line as int,
                    x as int,
                ),
                first is Some <==> end is Some,
                end is Some ==> first->0 <= end->0 < i,
                end is Some ==> self.stops@[end->0 as int].sub_line == sub_line,
                hit is Some ==> end is Some && first->0 <= hit->0 <= end->0,
                hit is Some ==> self.stops@[hit->0 as int].x <= x,
                hit is Some && hit->0 < end->0 ==> self.stops@[hit->0 + 1].sub_line == sub_line,
                end is None && i > 0 ==> self.stops@[i - 1].sub_line < sub_line,
                end is Some ==> forall|j: int|
                    end->0 <= j < i ==> sub_line <= (#[trigger] self.stops@[j]).sub_line,
                end is Some ==> forall|j: int|
                    first->0 <= j <= end->0 ==> (#[trigger] self.stops@[j]).sub_line == sub_line,
            decreases n - i,
        {
            assert(self.stops@.take(i + 1).drop_last() =~= self.stops@.take(i as int));
            let stop = self.stops[i];
            proof {
                if i > 0 {
                    assert(steps_in_order(self.stops@[i - 1], self.stops@[i as int]));
                }
                if end is Some {
                    lemma_stops_monotone(self.stops@, self.len as int, end->0 as int, i as int);
                }
            }
            if stop.sub_line == sub_line {
                if first.is_none() {
                    first = Some(i);
                }
                proof {
                    if end is Some {
                        assert forall|j: int| first->0 <= j <= i implies (
                        #[trigger] self.stops@[j]).sub_line == sub_line by {
                            if j > end->0 {
                                lemma_stops_monotone(self.stops@, self.len as int, j, i as int);
                            }
                        }
                    }
                }
                end = Some(i);
                if stop.x as i128 <= x {
                    hit = Some(i);
                }
            }
            i += 1;
        }
        proof {
            assert(self.stops@.take(n as int) =~= self.stops@);
            if sub_line <= self.spec_wrap_count() && end is None {
                lemma_sub_line_present(self.stops@, self.len as int, sub_line as int, n - 1);
            }
        }
        (first, end, hit)
    }

    /// The index at horizontal position `x` on sub-line `sub_line`.
    pub fn index_for_position(&self, x: i128, sub_line: usize) -> (r: IndexResult)
        requires
            self.wf(),
        ensures
            r == index_at(self.spec_stops(), self.spec_len(), sub_line as int, x as int),
            r.spec_index() <= self.spec_len(),
    {
        let (first, end, hit) = self.scan_sub_line(sub_line, x);
        proof {
            let n = self.stops@.len() as int;
            assert forall|j: int| 0 <= j < n implies (#[trigger] self.stops@[j]).index
                <= self.len by {
                lemma_stops_monotone(self.stops@, self.len as int, j, j);
            }
        }
        match end {
            None => IndexResult::ClampedToLineEnd(self.len),
            Some(e) => {
                if x >= self.stops[e].x as i128 {
                    IndexResult::ClampedToLineEnd(self.stops[e].index)
                } else {
                    match hit {
                        Some(h) => IndexResult::FoundAt(self.stops[h].index),
                        None => IndexResult::FoundAt(self.stops[first.unwrap()].index),
                    }
                }
            },
        }
    }

    /// The index nearest to horizontal position `x` on sub-line `sub_line`.
    pub fn closest_index_for_position(&self, x: i128, sub_line: usize) -> (r: IndexResult)
        requires
            self.wf(),
        ensures
            r == closest_index_at(self.spec_stops(), self.spec_len(), sub_line as int, x as int),
            r.spec_index() <= self.spec_len(),
    {
        let (first, end, hit) = self.scan_sub_line(sub_line, x);
        proof {
            let n = self.stops@.len() as int;
            assert forall|j: int| 0 <= j < n implies (#[trigger] self.stops@[j]).index
                <= self.len by {
                lemma_stops_monotone(self.stops@, self.len as int, j, j);
            }
        }
        match end {
            None => IndexResult::ClampedToLineEnd(self.len),
            Some(e) => {
                if x >= self.stops[e].x as i128 {
                    IndexResult::ClampedToLineEnd(self.stops[e].index)
                } else {
                    match hit {
                        None => IndexResult::FoundAt(self.stops[first.unwrap()].index),
                        Some(h) => {
                            let left = self.stops[h];
                            let right = self.stops[h + 1];
                            if right.x as i128 - x < x - left.x as i128 {
                                IndexResult::FoundAt(right.index)
                            } else {
                                IndexResult::FoundAt(left.index)
                            }
                        },
                    }
                }
            },
        }
    }

    /// The length of the line in bytes, its line break not counted.
    pub fn len(&self) -> (r: usize)
        ensures
            r == self.spec_len(),
    {
        self.len
    }

    /// The number of wrap breaks of the line.
    pub fn wrap_count(&self) -> (r: usize)
        requires
            self.wf(),
        ensures
            r == self.spec_wrap_count(),
    {
        self.stops[self.stops.len() - 1].sub_line
    }
}

/// The lines of a layout, kept in a `SmallVec` with room for one line in
/// place, as a host hands them over.
///
/// Trusted: the vector is opaque here; what it holds is named by
/// `lines_held`.
#[verifier::external_body]
pub struct Lines {
    held: SmallVec<[WrappedLine; 1]>,
}

/// The lines that `lines` holds, in order.
pub uninterp spec fn lines_held(lines: Lines) -> Seq<WrappedLine>;

/// Calls `SmallVec::from_vec`.
///
/// Trusted: the small vector holds the items of `lines` in their order.
#[verifier::external_body]
fn lines_from_vec(lines: Vec<WrappedLine>) -> (r: Lines)
    ensures
        lines_held(r) == lines@,
{
    Lines { held: SmallVec::from_vec(lines) }
}

/// Calls `SmallVec::as_slice`.
///
/// Trusted: the slice is made of the items that the small vector holds, in
/// their order.
#[verifier::external_body]
fn lines_as_slice(lines: &Lines) -> (r: &[WrappedLine])
    ensures
        r@ == lines_held(*lines),
{
    lines.held.as_slice()
}

/// The bytes that the first `n` lines take, one line break after each.
pub open spec fn offset_before(lines: Seq<WrappedLine>, n: int) -> int
    decreases n,
{
    if n <= 0 {
        0
    } else {
        offset_before(lines, n - 1) + lines[n - 1].spec_len() + 1
    }
}

/// The visual rows that the first `n` lines take.
pub open spec fn rows_before(lines: Seq<WrappedLine>, n: int) -> int
    decreases n,
{
    if n <= 0 {
        0
    } else {
        rows_before(lines, n - 1) + lines[n - 1].spec_wrap_count() + 1
    }
}

/// The first line at or after `from` within whose bytes `offset` falls, the
/// place just before its line break included; the number of lines if none.
pub open spec fn line_containing(lines: Seq<WrappedLine>, offset: int, from: int) -> int
    decreases lines.len() - from,
{
    if from >= lines.len() {
        lines.len() as int
    } else if offset <= offset_before(lines, from) + lines[from].spec_len() {
        from
    } else {
        line_containing(lines, offset, from + 1)
    }
}

/// The first line at or after `from` that holds visual row `row`, counted
/// from the top of the first line; the number of lines if none does.
pub open spec fn line_of_row(lines: Seq<WrappedLine>, row: int, from: int) -> int
    decreases lines.len() - from,
{
    if from >= lines.len() {
        lines.len() as int
    } else if row < rows_before(lines, from + 1) {
        from
    } else {
        line_of_row(lines, row, from + 1)
    }
}

/// The bytes and rows taken by the first lines grow with their number.
pub proof fn lemma_before_monotone(lines: Seq<WrappedLine>, i: int, j: int)
    requires
        0 <= i <= j <= lines.len(),
        forall|k: int| 0 <= k < lines.len() ==> (#[trigger] lines[k]).wf(),
    ensures
        0 <= offset_before(lines, i) <= offset_before(lines, j),
        0 <= rows_before(lines, i) <= rows_before(lines, j),
        offset_before(lines, j) - offset_before(lines, i) >= j - i,
        rows_before(lines, j) - rows_before(lines, i) >= j - i,
    decreases j,
{
    if i < j {
        lemma_before_monotone(lines, i, j - 1);
        assert(lines[j - 1].wf());
    } else if i > 0 {
        lemma_before_monotone(lines, i - 1, i - 1);
        assert(lines[i - 1].wf());
    }
}

/// The layout of a whole text, as the host last measured it.
pub struct LayoutSnapshot {
    lines: Lines,
    line_height: i64,
    origin: Point,
}

impl LayoutSnapshot {
    /// The logical lines, in the order of the text.
    pub closed spec fn spec_lines(&self) -> Seq<WrappedLine> {
        lines_held(self.lines)
    }

    /// The height of one visual row.
    pub closed spec fn spec_line_height(&self) -> int {
        self.line_height as int
    }

    /// The origin of the text's bounds.
    pub closed spec fn spec_origin(&self) -> Point {
        self.origin
    }

    /// The snapshot's invariant: every line is in order, the row height is
    /// positive, and the bytes and the height of all lines fit the machine's
    /// integers.
    pub open spec fn wf(&self) -> bool {
        &&& self.spec_line_height() > 0
        &&& forall|k: int| 0 <= k < self.spec_lines().len() ==> (#[trigger] self.spec_lines()[k]).wf()
        &&& offset_before(self.spec_lines(), self.spec_lines().len() as int) <= usize::MAX
        &&& rows_before(self.spec_lines(), self.spec_lines().len() as int) * self.spec_line_height()
            <= i64::MAX
    }

    /// A snapshot of the given lines, if they meet the invariant.
    pub fn new(lines: Vec<WrappedLine>, line_height: i64, origin: Point) -> (r: Option<
        LayoutSnapshot,
    >)
        requires
            forall|k: int| 0 <= k < lines@.len() ==> (#[trigger] lines@[k]).wf(),
        ensures
            r is Some <==> {
                &&& line_height > 0
                &&& offset_before(lines@, lines@.len() as int) <= usize::MAX
                &&& rows_before(lines@, lines@.len() as int) * line_height <= i64::MAX
            },
            r is Some ==> r->0.wf() && r->0.spec_lines() == lines@ && r->0.spec_line_height()
                == line_height && r->0.spec_origin() == origin,
    {
        if line_height <= 0 {
            return None;
        }
        let n = lines.len();
        let mut bytes: usize = 0;
        let mut rows: i64 = 0;
        let mut i: usize = 0;
        while i < n
            invariant
                n == lines@.len(),
                i <= n,
                line_height > 0,
                forall|k: int| 0 <= k < lines@.len() ==> (#[trigger] lines@[k]).wf(),
                bytes == offset_before(lines@, i as int),
                0 <= rows == rows_before(lines@, i as int),
                rows * line_height <= i64::MAX,
            decreases n - i,
        {
            proof {
                lemma_before_monotone(lines@, i + 1, n as int);
                assert(lines@[i as int].wf());
            }
            let len = lines[i].len();
            let wraps = lines[i].wrap_count();
            if len >= usize::MAX - bytes {
                return None;
            }
            if wraps as u128 >= (i64::MAX - rows) as u128 {
                proof {
                    lemma_rows_bound(rows_before(lines@, n as int), line_height as int);
                }
                return None;
            }
            let next_rows: i64 = rows + wraps as i64 + 1;
            if next_rows > i64::MAX / line_height {
                proof {
                    lemma_too_high(next_rows as int, line_height as int);
                    lemma_product_monotone(
                        next_rows as int,
                        rows_before(lines@, n as int),
                        line_height as int,
                    );
                }
                return None;
            }
            proof {
                lemma_fits(next_rows as int, line_height as int);
            }
            bytes = bytes + len + 1;
            rows = next_rows;
            i += 1;
        }
        Some(LayoutSnapshot { lines: lines_from_vec(lines), line_height, origin })
    }

    /// Where `offset` lies: the line within whose bytes it falls, the
    /// sub-line of the caret stop there, and the stop's position measured from
    /// the top of the first line. None when `offset` lies past every line.
    pub open spec fn position_of(&self, offset: int) -> Option<LinePosition> {
        let lines = self.spec_lines();
        let line = line_containing(lines, offset, 0);
        if line >= lines.len() {
            None
        } else {
            let stops = lines[line].spec_stops();
            let stop = stops[last_stop_upto(stops, offset - offset_before(lines, line))];
            Some(
                LinePosition {
                    line_index: line as usize,
                    sub_line_index: stop.sub_line,
                    point: Point {
                        x: stop.x,
                        y: ((rows_before(lines, line) + stop.sub_line)
                            * self.spec_line_height()) as i64,
                    },
                },
            )
        }
    }

    /// The line, the sub-line and the point at which the byte offset `offset`
    /// lies, found by walking the lines in order.
    pub fn line_and_position_for_offset(&self, offset: usize) -> (r: Option<LinePosition>)
        requires
            self.wf(),
        ensures
            r == self.position_of(offset as int),
            r is Some ==> r->0.line_index < self.spec_lines().len(),
            r is Some ==> r->0.sub_line_index
                <= self.spec_lines()[r->0.line_index as int].spec_wrap_count(),
            r is Some <==> offset < offset_before(
                self.spec_lines(),
                self.spec_lines().len() as int,
            ),
            r is Some ==> r->0.sub_line_index == (r->0.point.y as int) / self.spec_line_height()
                - rows_before(self.spec_lines(), r->0.line_index as int),
    {
        let lines = lines_as_slice(&self.lines);
        let n = lines.len();
        let mut before: usize = 0;
        let mut rows: i64 = 0;
        let mut i: usize = 0;
        while i < n
            invariant
                self.wf(),
                lines@ == self.spec_lines(),
                n == lines@.len(),
                i <= n,
                before == offset_before(lines@, i as int),
                0 <= rows == rows_before(lines@, i as int),
                before <= offset,
                line_containing(lines@, offset as int, 0) == line_containing(
                    lines@,
                    offset as int,
                    i as int,
                ),
            decreases n - i,
        {
            proof {
                lemma_before_monotone(lines@, i + 1, n as int);
                lemma_before_monotone(lines@, 0, i as int);
                assert(lines@[i as int].wf());
                lemma_rows_bound(rows_before(lines@, n as int), self.line_height as int);
            }
            let line = &lines[i];
            let len = line.len();
            let wraps = line.wrap_count();
            if offset - before <= len {
                let stop = line.position_for_index(offset - before).unwrap();
                let row: i64 = rows + stop.sub_line as i64;
                proof {
                    lemma_product_monotone(
                        row as int,
                        rows_before(lines@, n as int),
                        self.line_height as int,
                    );
                    lemma_rows_bound(row as int, self.line_height as int);
                    lemma_quotient_of_multiple(row as int, self.line_height as int);
                }
                return Some(
                    LinePosition {
                        line_index: i,
                        sub_line_index: stop.sub_line,
                        point: Point { x: stop.x, y: row * self.line_height },
                    },
                );
            }
            before = before + len + 1;
            rows = rows + wraps as i64 + 1;
            i += 1;
        }
        None
    }

    /// Where one step in `direction` from sub-line `sub_line` of line `line`
    /// leads: the neighbouring sub-line of the same line, else the nearest
    /// sub-line of the neighbouring line, else the start or the end of the
    /// text.
    pub open spec fn step_from(&self, line: int, sub_line: int, direction: Direction) -> VerticalStep {
        let lines = self.spec_lines();
        match direction {
            Direction::Up => if sub_line > 0 {
                VerticalStep::SubLine {
                    line_index: line as usize,
                    sub_line_index: (sub_line - 1) as usize,
                }
            } else if line > 0 {
                VerticalStep::SubLine {
                    line_index: (line - 1) as usize,
                    sub_line_index: lines[line - 1].spec_wrap_count() as usize,
                }
            } else {
                VerticalStep::DocumentStart
            },
            Direction::Down => if sub_line < lines[line].spec_wrap_count() {
                VerticalStep::SubLine {
                    line_index: line as usize,
                    sub_line_index: (sub_line + 1) as usize,
                }
            } else if line + 1 < lines.len() {
                VerticalStep::SubLine { line_index: (line + 1) as usize, sub_line_index: 0 }
            } else {
                VerticalStep::DocumentEnd
            },
        }
    }

    /// The sub-line one step up or down from sub-line `sub_line_index` of
    /// line `line_index`.
    pub fn vertical_step(&self, line_index: usize, sub_line_index: usize, direction: Direction) -> (r:
        VerticalStep)
        requires
            self.wf(),
            line_index < self.spec_lines().len(),
        ensures
            r == self.step_from(line_index as int, sub_line_index as int, direction),
            r matches VerticalStep::SubLine { line_index: l, sub_line_index: s } ==> l
                < self.spec_lines().len() && (sub_line_index
                <= self.spec_lines()[line_index as int].spec_wrap_count() ==> s
                <= self.spec_lines()[l as int].spec_wrap_count()),
    {
        let lines = lines_as_slice(&self.lines);
        assert(lines@[line_index as int].wf());
        match direction {
            Direction::Up => {
                if sub_line_index > 0 {
                    VerticalStep::SubLine { line_index, sub_line_index: sub_line_index - 1 }
                } else if line_index > 0 {
                    assert(lines@[line_index - 1].wf());
                    VerticalStep::SubLine {
                        line_index: line_index - 1,
                        sub_line_index: lines[line_index - 1].wrap_count(),
                    }
                } else {
                    VerticalStep::DocumentStart
                }
            },
            Direction::Down => {
                if sub_line_index < lines[line_index].wrap_count() {
                    VerticalStep::SubLine { line_index, sub_line_index: sub_line_index + 1 }
                } else if line_index < lines.len() - 1 {
                    VerticalStep::SubLine { line_index: line_index + 1, sub_line_index: 0 }
                } else {
                    VerticalStep::DocumentEnd
                }
            },
        }
    }

    /// The byte offset at horizontal position `x` on sub-line `sub_line` of
    /// line `line`: the bytes of the lines before it and the index that the
    /// line gives for the position.
    pub open spec fn offset_at(&self, line: int, sub_line: int, x: int) -> int {
        let lines = self.spec_lines();
        offset_before(lines, line) + index_at(
            lines[line].spec_stops(),
            lines[line].spec_len(),
            sub_line,
            x,
        ).spec_index()
    }

    /// The byte offset at horizontal position `x` on a sub-line of a line.
    pub fn offset_for_position(&self, line_index: usize, sub_line_index: usize, x: i128) -> (r:
        usize)
        requires
            self.wf(),
            line_index < self.spec_lines().len(),
        ensures
            r == self.offset_at(line_index as int, sub_line_index as int, x as int),
    {
        let lines = lines_as_slice(&self.lines);
        let mut before: usize = 0;
        let mut i: usize = 0;
        while i < line_index
            invariant
                self.wf(),
                lines@ == self.spec_lines(),
                i <= line_index < lines@.len(),
                before == offset_before(lines@, i as int),
            decreases line_index - i,
        {
            proof {
                lemma_before_monotone(lines@, i + 1, lines@.len() as int);
            }
            before = before + lines[i].len() + 1;
            i += 1;
        }
        proof {
            lemma_before_monotone(lines@, line_index + 1, lines@.len() as int);
            assert(lines@[line_index as int].wf());
        }
        let found = lines[line_index].index_for_position(x, sub_line_index);
        before + found.index()
    }

    /// The byte offset nearest to `position`, a point in the coordinates of
    /// the text's bounds.
    ///
    /// The point's row is its height above the origin divided by the row
    /// height, a point above the text counting as on the first row. On the
    /// line that holds the row the offset is the one nearest to the point's
    /// horizontal position; below the last line it is the end of the layout.
    pub open spec fn offset_near(&self, position: Point) -> int {
        let lines = self.spec_lines();
        let x = position.x - self.spec_origin().x;
        let y = position.y - self.spec_origin().y;
        let row = if y < 0 {
            0
        } else {
            y / self.spec_line_height()
        };
        let line = line_of_row(lines, row, 0);
        if line >= lines.len() {
            offset_before(lines, lines.len() as int)
        } else {
            offset_before(lines, line) + closest_index_at(
                lines[line].spec_stops(),
                lines[line].spec_len(),
                row - rows_before(lines, line),
                x,
            ).spec_index()
        }
    }

    /// The byte offset nearest to a point, found by walking the lines in
    /// order.
    pub fn offset_for_point(&self, position: Point) -> (r: usize)
        requires
            self.wf(),
        ensures
            r == self.offset_near(position),
    {
        let lines = lines_as_slice(&self.lines);
        let x: i128 = position.x as i128 - self.origin.x as i128;
        let y: i128 = position.y as i128 - self.origin.y as i128;
        let row: i128 = if y < 0 {
            0
        } else {
            y / (self.line_height as i128)
        };
        let n = lines.len();
        let mut before: usize = 0;
        let mut rows: i64 = 0;
        let mut i: usize = 0;
        while i < n
            invariant
                self.wf(),
                lines@ == self.spec_lines(),
                n == lines@.len(),
                i <= n,
                before == offset_before(lines@, i as int),
                0 <= rows == rows_before(lines@, i as int),
                rows <= row,
                x == position.x - self.origin.x,
                row == if position.y - self.origin.y < 0 {
                    0
                } else {
                    (position.y - self.origin.y) / (self.line_height as int)
                },
                line_of_row(lines@, row as int, 0) == line_of_row(
                    lines@,
                    row as int,
                    i as int,
                ),
            decreases n - i,
        {
            proof {
                lemma_before_monotone(lines@, i + 1, n as int);
                assert(lines@[i as int].wf());
                lemma_rows_bound(rows_before(lines@, n as int), self.line_height as int);
            }
            let line = &lines[i];
            let len = line.len();
            let wraps = line.wrap_count();
            if row - rows as i128 <= wraps as i128 {
                let sub_line: usize = (row - rows as i128) as usize;
                let found = line.closest_index_for_position(x, sub_line);
                return before + found.index();
            }
            before = before + len + 1;
            rows = rows + wraps as i64 + 1;
            i += 1;
        }
        proof {
            lemma_before_monotone(lines@, n as int, n as int);
        }
        before
    }

    /// The index in the first line nearest to the horizontal position of
    /// `position`, as a single-line input asks for it; 0 without a line.
    pub open spec fn index_near_in_first_line(&self, position: Point) -> int {
        let lines = self.spec_lines();
        if lines.len() == 0 {
            0
        } else {
            closest_index_at(
                lines[0].spec_stops(),
                lines[0].spec_len(),
                0,
                position.x - self.spec_origin().x,
            ).spec_index() as int
        }
    }

    /// The index in the first line nearest to a point's horizontal position.
    pub fn closest_index_in_first_line(&self, position: Point) -> (r: usize)
        requires
            self.wf(),
        ensures
            r == self.index_near_in_first_line(position),
    {
        let lines = lines_as_slice(&self.lines);
        if lines.len() == 0 {
            0
        } else {
            assert(lines@[0].wf());
            let x: i128 = position.x as i128 - self.origin.x as i128;
            lines[0].closest_index_for_position(x, 0).index()
        }
    }

    /// The number of logical lines.
    pub fn line_count(&self) -> (r: usize)
        ensures
            r == self.spec_lines().len(),
    {
        let lines = lines_as_slice(&self.lines);
        lines.len()
    }

    /// The height of one visual row.
    pub fn line_height(&self) -> (r: i64)
        ensures
            r == self.spec_line_height(),
    {
        self.line_height
    }

    /// The origin of the text's bounds.
    pub fn origin(&self) -> (r: Point)
        ensures
            r == self.spec_origin(),
    {
        self.origin
    }
}

/// A row count whose product with a positive height fits is itself at most
/// the largest integer.
proof fn lemma_rows_bound(rows: int, height: int)
    requires
        rows >= 0,
        height > 0,
    ensures
        rows * height >= rows,
{
    assert(rows * height >= rows) by (nonlinear_arith)
        requires
            rows >= 0,
            height > 0,
    ;
}

/// More rows than the quotient of the largest integer by the height are too
/// high.
proof fn lemma_too_high(rows: int, height: int)
    requires
        height > 0,
        rows > i64::MAX as int / height,
    ensures
        rows * height > i64::MAX,
{
    assert(rows * height > i64::MAX) by (nonlinear_arith)
        requires
            height > 0,
            rows > i64::MAX as int / height,
    ;
}

/// At most as many rows as the quotient of the largest integer by the height
/// fit.
proof fn lemma_fits(rows: int, height: int)
    requires
        height > 0,
        0 <= rows <= i64::MAX as int / height,
    ensures
        rows * height <= i64::MAX,
{
    assert(rows * height <= i64::MAX) by (nonlinear_arith)
        requires
            height > 0,
            0 <= rows <= i64::MAX as int / height,
    ;
}

/// A multiple of a positive height, divided by the height, gives the factor.
proof fn lemma_quotient_of_multiple(rows: int, height: int)
    requires
        rows >= 0,
        height > 0,
    ensures
        (rows * height) / height == rows,
{
    assert((rows * height) / height == rows) by (nonlinear_arith)
        requires
            rows >= 0,
            height > 0,
    ;
}

/// The product with a positive height grows with the row count.
proof fn lemma_product_monotone(a: int, b: int, height: int)
    requires
        0 <= a <= b,
        height > 0,
    ensures
        a * height <= b * height,
{
    assert(a * height <= b * height) by (nonlinear_arith)
        requires
            0 <= a <= b,
            height > 0,
    ;
}

} // verus!
