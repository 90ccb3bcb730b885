//! Movement by grapheme clusters: the boundaries at which a cursor may stand
//! so that it never splits a user-perceived character.

use unicode_segmentation::UnicodeSegmentation;
use vstd::prelude::*;
use vstd::string::*;
use vstd::utf8::*;

use crate::codec::is_scalar_boundary;
use crate::codec::lemma_scalar_boundary_is_char_boundary;

verus! {

/// The byte offsets at which the extended grapheme clusters of `text` start,
/// in the order of the text.
pub uninterp spec fn grapheme_starts(text: Seq<char>) -> Seq<usize>;

/// What holds of the cluster starts of a text of `len` bytes: they begin at 0,
/// rise strictly and stay below `len`.
pub open spec fn starts_in_order(starts: Seq<usize>, len: int) -> bool {
    &&& len > 0 ==> starts.len() > 0 && starts[0] == 0
    &&& forall|i: int, j: int| 0 <= i < j < starts.len() ==> starts[i] < starts[j]
    &&& forall|i: int| 0 <= i < starts.len() ==> (#[trigger] starts[i]) < len
}

/// `offset` is a place between two grapheme clusters of the text with these
/// cluster starts and `len` bytes: a cluster start, or the end of the text.
pub open spec fn is_boundary(starts: Seq<usize>, len: int, offset: int) -> bool {
    offset == len || exists|i: int| 0 <= i < starts.len() && #[trigger] starts[i] == offset
}

/// The first of `starts` that is greater than `offset`, or `len` if none is.
pub open spec fn first_above(starts: Seq<usize>, len: int, offset: int) -> int
    decreases starts.len(),
{
    if starts.len() == 0 {
        len
    } else if starts[0] > offset {
        starts[0] as int
    } else {
        first_above(starts.drop_first(), len, offset)
    }
}

/// The last of `starts` that is less than `offset`, or 0 if none is.
pub open spec fn last_below(starts: Seq<usize>, offset: int) -> int
    decreases starts.len(),
{
    if starts.len() == 0 {
        0
    } else if starts.last() < offset {
        starts.last() as int
    } else {
        last_below(starts.drop_last(), offset)
    }
}

/// The boundary at or before `offset`: `len` when `offset` reaches the end,
/// else the last of `starts` that is at most `offset`.
pub open spec fn boundary_floor(starts: Seq<usize>, len: int, offset: int) -> int {
    if offset >= len {
        len
    } else {
        last_below(starts, offset + 1)
    }
}

/// Calls `UnicodeSegmentation::grapheme_indices` for extended clusters and
/// keeps the byte offset of each cluster.
///
/// Trusted: the offsets are those named by `grapheme_starts`; the iterator
/// hands out consecutive non-empty slices of the text from its start to its
/// end, so the offsets begin at 0, rise strictly, stay below the length and
/// fall on character boundaries.
#[verifier::external_body]
fn cluster_starts(text: &str) -> (starts: Vec<usize>)
    ensures
        starts@ == grapheme_starts(text@),
        starts_in_order(starts@, text.spec_bytes().len() as int),
        forall|i: int|
            0 <= i < starts@.len() ==> is_char_boundary(text.spec_bytes(), #[trigger] starts@[i] as int),
{
    text.grapheme_indices(true).map(|(start, _)| start).collect()
}

/// What `first_above` returns of rising cluster starts below `len` is a
/// boundary beyond `offset`, or the end of the text; no cluster start lies
/// strictly between `offset` and it.
pub proof fn lemma_first_above(starts: Seq<usize>, len: int, offset: int)
    requires
        forall|i: int, j: int| 0 <= i < j < starts.len() ==> starts[i] < starts[j],
        forall|i: int| 0 <= i < starts.len() ==> (#[trigger] starts[i]) < len,
    ensures
        is_boundary(starts, len, first_above(starts, len, offset)),
        first_above(starts, len, offset) <= len,
        first_above(starts, len, offset) > offset || first_above(starts, len, offset) == len,
        forall|i: int|
            0 <= i < starts.len() && offset < #[trigger] starts[i] ==> first_above(
                starts,
                len,
                offset,
            ) <= starts[i],
    decreases starts.len(),
{
    if starts.len() > 0 {
        if starts[0] <= offset {
            let rest = starts.drop_first();
            assert forall|i: int, j: int| 0 <= i < j < rest.len() implies rest[i] < rest[j] by {
                assert(rest[i] == starts[i + 1] && rest[j] == starts[j + 1]);
            }
            assert forall|i: int| 0 <= i < rest.len() implies (#[trigger] rest[i]) < len by {
                assert(rest[i] == starts[i + 1]);
            }
            lemma_first_above(rest, len, offset);
            let r = first_above(rest, len, offset);
            if r != len {
                let k = choose|k: int| 0 <= k < rest.len() && #[trigger] rest[k] == r;
                assert(starts[k + 1] == r);
            }
            assert forall|i: int| 0 <= i < starts.len() && offset < #[trigger] starts[i] implies r
                <= starts[i] by {
                assert(rest[i - 1] == starts[i]);
            }
        } else {
            assert(starts[0] == first_above(starts, len, offset));
        }
    }
}

/// What `last_below` returns is a cluster start before `offset`, or 0; no
/// cluster start lies strictly between it and `offset`.
pub proof fn lemma_last_below(starts: Seq<usize>, offset: int)
    ensures
        last_below(starts, offset) == 0 || exists|i: int|
            0 <= i < starts.len() && #[trigger] starts[i] == last_below(starts, offset),
        last_below(starts, offset) < offset || last_below(starts, offset) == 0,
        (forall|i: int, j: int| 0 <= i < j < starts.len() ==> starts[i] < starts[j]) ==> forall|
            i: int,
        |
            0 <= i < starts.len() && (#[trigger] starts[i]) < offset ==> starts[i] <= last_below(
                starts,
                offset,
            ),
    decreases starts.len(),
{
    if starts.len() > 0 && starts.last() >= offset {
        let rest = starts.drop_last();
        lemma_last_below(rest, offset);
        let r = last_below(rest, offset);
        if r != 0 {
            let k = choose|k: int| 0 <= k < rest.len() && #[trigger] rest[k] == r;
            assert(starts[k] == r);
        }
        if forall|i: int, j: int| 0 <= i < j < starts.len() ==> starts[i] < starts[j] {
            assert forall|i: int, j: int| 0 <= i < j < rest.len() implies rest[i] < rest[j] by {
                assert(rest[i] == starts[i] && rest[j] == starts[j]);
            }
            assert forall|i: int| 0 <= i < starts.len() && (#[trigger] starts[i]) < offset implies starts[i] <= r by {
                assert(rest[i] == starts[i]);
            }
        }
    }
}

/// The first of `starts` that is greater than `offset`, or `len` if none is.
pub fn next_start(starts: &Vec<usize>, len: usize, offset: usize) -> (r: usize)
    ensures
        r == first_above(starts@, len as int, offset as int),
{
    let mut i: usize = 0;
    assert(starts@.subrange(0, starts@.len() as int) =~= starts@);
    while i < starts.len()
        invariant
            i <= starts@.len(),
            first_above(starts@, len as int, offset as int) == first_above(
                starts@.subrange(i as int, starts@.len() as int),
                len as int,
                offset as int,
            ),
        decreases starts@.len() - i,
    {
        let ghost rest = starts@.subrange(i as int, starts@.len() as int);
        assert(rest.len() > 0 && rest[0] == starts@[i as int]);
        assert(rest.drop_first() =~= starts@.subrange(i + 1, starts@.len() as int));
        if starts[i] > offset {
            return starts[i];
        }
        i += 1;
    }
    assert(starts@.subrange(i as int, starts@.len() as int).len() == 0);
    len
}

/// The last of `starts` that is less than `offset`, or 0 if none is.
pub fn previous_start(starts: &Vec<usize>, offset: usize) -> (r: usize)
    ensures
        r == last_below(starts@, offset as int),
{
    let mut i: usize = starts.len();
    assert(starts@.take(starts@.len() as int) =~= starts@);
    while i > 0
        invariant
            i <= starts@.len(),
            last_below(starts@, offset as int) == last_below(
                starts@.take(i as int),
                offset as int,
            ),
        decreases i,
    {
        let ghost front = starts@.take(i as int);
        assert(front.len() > 0 && front.last() == starts@[i - 1]);
        assert(front.drop_last() =~= starts@.take(i - 1));
        if starts[i - 1] < offset {
            return starts[i - 1];
        }
        i -= 1;
    }
    assert(starts@.take(i as int).len() == 0);
    0
}

/// The boundary at or before `offset` among the cluster starts of a text of
/// `len` bytes.
pub fn floor_start(starts: &Vec<usize>, len: usize, offset: usize) -> (r: usize)
    ensures
        r == boundary_floor(starts@, len as int, offset as int),
{
    if offset >= len {
        len
    } else {
        previous_start(starts, offset + 1)
    }
}

/// `offset` is a grapheme boundary of `text`: the start of one of its
/// clusters, or its end.
pub open spec fn is_grapheme_boundary(text: Seq<char>, offset: int) -> bool {
    is_boundary(grapheme_starts(text), encode_utf8(text).len() as int, offset)
}

/// A boundary among cluster starts that fall on character boundaries is a
/// scalar boundary of the text.
proof fn lemma_boundary_is_scalar_boundary(text: &str, starts: Seq<usize>, offset: int)
    requires
        starts_in_order(starts, text.spec_bytes().len() as int),
        forall|i: int|
            0 <= i < starts.len() ==> is_char_boundary(text.spec_bytes(), #[trigger] starts[i] as int),
        is_boundary(starts, text.spec_bytes().len() as int, offset),
    ensures
        is_scalar_boundary(text.spec_bytes(), offset),
{
    encode_utf8_valid_utf8(text@);
    if offset != text.spec_bytes().len() {
        let k = choose|k: int| 0 <= k < starts.len() && #[trigger] starts[k] == offset;
        lemma_scalar_boundary_is_char_boundary(text.spec_bytes(), offset);
    }
}

/// The smallest grapheme-cluster start of `text` that is greater than
/// `offset`, or the length of `text` if there is none.
pub fn next_boundary(text: &str, offset: usize) -> (r: usize)
    ensures
        r == first_above(grapheme_starts(text@), text.spec_bytes().len() as int, offset as int),
        is_grapheme_boundary(text@, r as int),
        is_scalar_boundary(text.spec_bytes(), r as int),
        offset < r || r == text.spec_bytes().len(),
{
    let starts = cluster_starts(text);
    let len = text.as_bytes().len();
    let r = next_start(&starts, len, offset);
    proof {
        lemma_first_above(starts@, len as int, offset as int);
        lemma_boundary_is_scalar_boundary(text, starts@, r as int);
    }
    r
}

/// The largest grapheme-cluster start of `text` that is less than `offset`,
/// or 0 if there is none.
pub fn previous_boundary(text: &str, offset: usize) -> (r: usize)
    ensures
        r == last_below(grapheme_starts(text@), offset as int),
        is_grapheme_boundary(text@, r as int),
        is_scalar_boundary(text.spec_bytes(), r as int),
        r < offset || r == 0,
{
    let starts = cluster_starts(text);
    let r = previous_start(&starts, offset);
    proof {
        lemma_last_below(starts@, offset as int);
        lemma_boundary_is_scalar_boundary(text, starts@, r as int);
    }
    r
}

/// The grapheme boundary of `text` at or before `offset`; an offset past the
/// end gives the length.
pub fn snap_to_boundary(text: &str, offset: usize) -> (r: usize)
    ensures
        r == boundary_floor(
            grapheme_starts(text@),
            text.spec_bytes().len() as int,
            offset as int,
        ),
        is_grapheme_boundary(text@, r as int),
        is_scalar_boundary(text.spec_bytes(), r as int),
        r <= offset,
        is_grapheme_boundary(text@, offset as int) ==> r == offset,
{
    let starts = cluster_starts(text);
    let len = text.as_bytes().len();
    let r = floor_start(&starts, len, offset);
    proof {
        lemma_last_below(starts@, offset + 1);
        lemma_boundary_is_scalar_boundary(text, starts@, r as int);
    }
    r
}

} // verus!
