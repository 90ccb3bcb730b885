//! Conversion between byte offsets into UTF-8 text and offsets counted in
//! UTF-16 code units, the unit in which a host input protocol speaks.

use vstd::prelude::*;
use vstd::string::*;
use vstd::utf8::*;

verus! {

/// The UTF-16 code units taken by the scalar that byte `b` opens: none for a
/// continuation byte, two for the lead of a four-byte sequence, one otherwise.
pub open spec fn utf16_units(b: u8) -> nat {
    if is_continuation_byte(b) {
        0
    } else if is_leading_byte_width_4(b) {
        2
    } else {
        1
    }
}

/// The length in UTF-16 code units of the scalars that open in `bytes`.
pub open spec fn utf16_len(bytes: Seq<u8>) -> nat
    decreases bytes.len(),
{
    if bytes.len() == 0 {
        0
    } else {
        utf16_len(bytes.drop_last()) + utf16_units(bytes.last())
    }
}

/// `offset` is the end of `bytes` or the place of a byte that opens a scalar.
pub open spec fn is_scalar_boundary(bytes: Seq<u8>, offset: int) -> bool {
    0 <= offset <= bytes.len() && (offset < bytes.len() ==> !is_continuation_byte(bytes[offset]))
}

/// The largest scalar boundary that is at most `offset`; an offset past the
/// end gives the length.
pub open spec fn floor_boundary(bytes: Seq<u8>, offset: int) -> int
    decreases offset,
{
    if offset <= 0 {
        0
    } else if offset >= bytes.len() {
        bytes.len() as int
    } else if !is_continuation_byte(bytes[offset]) {
        offset
    } else {
        floor_boundary(bytes, offset - 1)
    }
}

/// The UTF-16 offset of the byte offset `offset`: the code units of all
/// scalars that end at or before it.
pub open spec fn utf16_offset_of(bytes: Seq<u8>, offset: int) -> nat {
    utf16_len(bytes.take(floor_boundary(bytes, offset)))
}

/// The largest scalar boundary, at most `bound`, whose prefix takes at most
/// `units` UTF-16 code units; 0 if there is none.
pub open spec fn last_boundary_within(bytes: Seq<u8>, units: int, bound: int) -> int
    decreases bound,
{
    if bound <= 0 {
        0
    } else if is_scalar_boundary(bytes, bound) && utf16_len(bytes.take(bound)) <= units {
        bound
    } else {
        last_boundary_within(bytes, units, bound - 1)
    }
}

/// The byte offset of the UTF-16 offset `units`: the start of the scalar in
/// which the offset falls, or the length when it lies past the end.
pub open spec fn byte_offset_of(bytes: Seq<u8>, units: int) -> int {
    last_boundary_within(bytes, units, bytes.len() as int)
}

/// A prefix one byte longer takes the code units of that byte more.
pub proof fn lemma_utf16_len_step(bytes: Seq<u8>, i: int)
    requires
        0 <= i < bytes.len(),
    ensures
        utf16_len(bytes.take(i + 1)) == utf16_len(bytes.take(i)) + utf16_units(bytes[i]),
{
    assert(bytes.take(i + 1).drop_last() =~= bytes.take(i));
}

/// The UTF-16 length of a prefix grows with the prefix.
pub proof fn lemma_utf16_len_monotone(bytes: Seq<u8>, i: int, j: int)
    requires
        0 <= i <= j <= bytes.len(),
    ensures
        utf16_len(bytes.take(i)) <= utf16_len(bytes.take(j)),
    decreases j - i,
{
    if i < j {
        lemma_utf16_len_step(bytes, j - 1);
        lemma_utf16_len_monotone(bytes, i, j - 1);
    }
}

/// The UTF-16 length of a concatenation is the sum of the parts' lengths.
pub proof fn lemma_utf16_len_concat(a: Seq<u8>, b: Seq<u8>)
    ensures
        utf16_len(a + b) == utf16_len(a) + utf16_len(b),
    decreases b.len(),
{
    if b.len() == 0 {
        assert(a + b =~= a);
    } else {
        assert((a + b).drop_last() =~= a + b.drop_last());
        lemma_utf16_len_concat(a, b.drop_last());
    }
}

/// On valid UTF-8 the scalar boundaries are the character boundaries.
pub proof fn lemma_scalar_boundary_is_char_boundary(bytes: Seq<u8>, offset: int)
    requires
        valid_utf8(bytes),
        0 <= offset <= bytes.len(),
    ensures
        is_scalar_boundary(bytes, offset) <==> is_char_boundary(bytes, offset),
{
    if offset < bytes.len() {
        is_char_boundary_iff_not_is_continuation_byte(bytes, offset);
    } else {
        is_char_boundary_start_end_of_seq(bytes);
    }
}

/// The first scalar of a well-formed sequence takes two code units when its
/// encoding has four bytes, and one otherwise.
proof fn lemma_first_scalar_units(bytes: Seq<u8>)
    requires
        bytes.len() > 0,
        valid_first_scalar(bytes),
    ensures
        1 <= length_of_first_scalar(bytes) <= bytes.len(),
        utf16_len(bytes.take(length_of_first_scalar(bytes))) == if length_of_first_scalar(bytes)
            == 4 {
            2nat
        } else {
            1nat
        },
{
    let width = length_of_first_scalar(bytes);
    assert(utf16_len(bytes.take(0)) == 0);
    lemma_utf16_len_step(bytes, 0);
    if width >= 2 {
        lemma_utf16_len_step(bytes, 1);
    }
    if width >= 3 {
        lemma_utf16_len_step(bytes, 2);
    }
    if width >= 4 {
        lemma_utf16_len_step(bytes, 3);
    }
}

/// Valid UTF-8 never takes more UTF-16 code units than it has bytes.
pub proof fn lemma_utf16_len_at_most_bytes(bytes: Seq<u8>)
    requires
        valid_utf8(bytes),
    ensures
        utf16_len(bytes) <= bytes.len(),
    decreases bytes.len(),
{
    if bytes.len() > 0 {
        let width = length_of_first_scalar(bytes);
        lemma_first_scalar_units(bytes);
        let head = bytes.take(width);
        let tail = pop_first_scalar(bytes);
        assert(bytes =~= head + tail);
        lemma_utf16_len_concat(head, tail);
        lemma_utf16_len_at_most_bytes(tail);
    }
}

/// The UTF-16 code units that the character `c` takes: two beyond the basic
/// plane, else one.
pub open spec fn utf16_width(c: char) -> nat {
    if c as u32 >= 0x10000 {
        2
    } else {
        1
    }
}

/// The length of `chars` in UTF-16 code units.
pub open spec fn utf16_len_of_chars(chars: Seq<char>) -> nat
    decreases chars.len(),
{
    if chars.len() == 0 {
        0
    } else {
        utf16_width(chars[0]) + utf16_len_of_chars(chars.drop_first())
    }
}

/// The UTF-16 length counted over the bytes of a text is the sum of the
/// UTF-16 widths of its characters.
pub proof fn lemma_utf16_len_of_text(chars: Seq<char>)
    ensures
        utf16_len(encode_utf8(chars)) == utf16_len_of_chars(chars),
    decreases chars.len(),
{
    if chars.len() > 0 {
        let bytes = encode_utf8(chars);
        encode_utf8_first_scalar(chars);
        char_is_scalar(chars[0]);
        lemma_first_scalar_units(bytes);
        let width = length_of_first_scalar(bytes);
        let head = bytes.take(width);
        let tail = pop_first_scalar(bytes);
        assert(bytes =~= head + tail);
        assert(tail =~= encode_utf8(chars.drop_first()));
        lemma_utf16_len_concat(head, tail);
        lemma_utf16_len_of_text(chars.drop_first());
    }
}

/// The prefix of valid UTF-8 up to a scalar boundary takes at most as many
/// code units as it has bytes.
pub proof fn lemma_utf16_prefix_at_most_bytes(bytes: Seq<u8>, offset: int)
    requires
        valid_utf8(bytes),
        is_scalar_boundary(bytes, offset),
    ensures
        utf16_len(bytes.take(offset)) <= offset,
{
    lemma_scalar_boundary_is_char_boundary(bytes, offset);
    valid_utf8_split(bytes, offset);
    assert(bytes.take(offset) =~= bytes.subrange(0, offset));
    lemma_utf16_len_at_most_bytes(bytes.take(offset));
}

/// What `floor_boundary` returns: a scalar boundary at most `offset`, and the
/// largest such one.
pub proof fn lemma_floor_boundary(bytes: Seq<u8>, offset: int)
    requires
        is_scalar_boundary(bytes, 0),
        0 <= offset,
    ensures
        is_scalar_boundary(bytes, floor_boundary(bytes, offset)),
        floor_boundary(bytes, offset) <= offset,
        forall|b: int| is_scalar_boundary(bytes, b) && b <= offset ==> b <= floor_boundary(bytes, offset),
        is_scalar_boundary(bytes, offset) ==> floor_boundary(bytes, offset) == offset,
    decreases offset,
{
    if offset > 0 && offset < bytes.len() && is_continuation_byte(bytes[offset]) {
        lemma_floor_boundary(bytes, offset - 1);
    }
}

/// Boundaries whose prefix takes more than `units` code units are passed over.
pub proof fn lemma_last_boundary_within_skip(bytes: Seq<u8>, units: int, bound: int, low: int)
    requires
        0 <= low <= bound <= bytes.len(),
        forall|b: int| low < b <= bound ==> utf16_len(#[trigger] bytes.take(b)) > units,
    ensures
        last_boundary_within(bytes, units, bound) == last_boundary_within(bytes, units, low),
    decreases bound - low,
{
    if low < bound {
        assert(utf16_len(bytes.take(bound)) > units);
        lemma_last_boundary_within_skip(bytes, units, bound - 1, low);
    }
}

/// What `last_boundary_within` returns lies between 0 and the bound.
pub proof fn lemma_last_boundary_within_range(bytes: Seq<u8>, units: int, bound: int)
    requires
        0 <= bound,
    ensures
        0 <= last_boundary_within(bytes, units, bound) <= bound,
    decreases bound,
{
    if bound > 0 && !(is_scalar_boundary(bytes, bound) && utf16_len(bytes.take(bound)) <= units) {
        lemma_last_boundary_within_range(bytes, units, bound - 1);
    }
}

/// A larger UTF-16 offset never gives a smaller byte offset.
pub proof fn lemma_byte_offset_monotone(bytes: Seq<u8>, low: int, high: int, bound: int)
    requires
        low <= high,
        0 <= bound,
    ensures
        last_boundary_within(bytes, low, bound) <= last_boundary_within(bytes, high, bound),
    decreases bound,
{
    if bound > 0 {
        if is_scalar_boundary(bytes, bound) && utf16_len(bytes.take(bound)) <= high {
            lemma_last_boundary_within_range(bytes, low, bound);
        } else {
            lemma_byte_offset_monotone(bytes, low, high, bound - 1);
        }
    }
}

/// Converting a scalar boundary to UTF-16 and back gives the boundary again.
pub proof fn lemma_round_trip(bytes: Seq<u8>, offset: int)
    requires
        is_scalar_boundary(bytes, 0),
        is_scalar_boundary(bytes, offset),
    ensures
        byte_offset_of(bytes, utf16_offset_of(bytes, offset) as int) == offset,
{
    lemma_floor_boundary(bytes, offset);
    let units = utf16_len(bytes.take(offset)) as int;
    assert forall|b: int| offset < b <= bytes.len() implies utf16_len(#[trigger] bytes.take(b))
        > units by {
        lemma_utf16_len_step(bytes, offset);
        lemma_utf16_len_monotone(bytes, offset + 1, b);
    }
    lemma_last_boundary_within_skip(bytes, units, bytes.len() as int, offset);
}

/// Converting a byte offset of a text that lies on a scalar boundary to
/// UTF-16 and back gives the offset again.
pub proof fn round_trip(text: Seq<char>, offset: int)
    requires
        is_scalar_boundary(encode_utf8(text), offset),
    ensures
        byte_offset_of(encode_utf8(text), utf16_offset_of(encode_utf8(text), offset) as int)
            == offset,
{
    let bytes = encode_utf8(text);
    encode_utf8_valid_utf8(text);
    is_char_boundary_start_end_of_seq(bytes);
    lemma_scalar_boundary_is_char_boundary(bytes, 0);
    lemma_round_trip(bytes, offset);
}

/// Whether `b` is a continuation byte of a multi-byte sequence.
fn is_continuation(b: u8) -> (r: bool)
    ensures
        r == is_continuation_byte(b),
{
    0x80 <= b && b <= 0xbf
}

/// The UTF-16 code units of the scalar that `b` opens.
fn units_of(b: u8) -> (r: usize)
    ensures
        r == utf16_units(b),
{
    if is_continuation(b) {
        0
    } else if 0xf0 <= b && b <= 0xf7 {
        2
    } else {
        1
    }
}

/// Rounds a byte offset down to the scalar boundary at or before it; an
/// offset past the end gives the length.
pub fn scalar_floor(bytes: &[u8], offset: usize) -> (r: usize)
    ensures
        r == floor_boundary(bytes@, offset as int),
        r <= bytes@.len(),
        r <= offset,
{
    let n = bytes.len();
    if offset >= n {
        return n;
    }
    let mut i: usize = offset;
    while i > 0 && is_continuation(bytes[i])
        invariant
            i <= offset < n,
            n == bytes@.len(),
            floor_boundary(bytes@, i as int) == floor_boundary(bytes@, offset as int),
        decreases i,
    {
        i -= 1;
    }
    i
}

/// The UTF-16 offset that corresponds to the byte offset `offset` of `text`.
///
/// An offset inside a scalar counts as the start of that scalar, an offset
/// past the end as the end.
pub fn offset_to_utf16(text: &str, offset: usize) -> (r: usize)
    ensures
        r == utf16_offset_of(text.spec_bytes(), offset as int),
{
    let bytes = text.as_bytes();
    let end = scalar_floor(bytes, offset);
    proof {
        encode_utf8_valid_utf8(text@);
        is_char_boundary_start_end_of_seq(bytes@);
        lemma_scalar_boundary_is_char_boundary(bytes@, 0);
        lemma_floor_boundary(bytes@, offset as int);
        lemma_utf16_prefix_at_most_bytes(bytes@, end as int);
    }
    let mut i: usize = 0;
    let mut units: usize = 0;
    while i < end
        invariant
            i <= end <= bytes@.len(),
            units == utf16_len(bytes@.take(i as int)),
            utf16_len(bytes@.take(end as int)) <= end,
        decreases end - i,
    {
        proof {
            lemma_utf16_len_step(bytes@, i as int);
            lemma_utf16_len_monotone(bytes@, i + 1, end as int);
        }
        units = units + units_of(bytes[i]);
        i += 1;
    }
    units
}

/// The byte offset of `text` that corresponds to the UTF-16 offset `offset`.
///
/// An offset between the two code units of a scalar counts as the start of
/// that scalar, an offset past the end as the end.
pub fn offset_from_utf16(text: &str, offset: usize) -> (r: usize)
    ensures
        r == byte_offset_of(text.spec_bytes(), offset as int),
        is_scalar_boundary(text.spec_bytes(), r as int),
{
    let bytes = text.as_bytes();
    let n = bytes.len();
    proof {
        encode_utf8_valid_utf8(text@);
        is_char_boundary_start_end_of_seq(bytes@);
        lemma_scalar_boundary_is_char_boundary(bytes@, 0);
    }
    let mut i: usize = 0;
    let mut units: usize = 0;
    while i < n
        invariant
            bytes@ == text.spec_bytes(),
            i <= n == bytes@.len(),
            is_scalar_boundary(bytes@, i as int),
            units == utf16_len(bytes@.take(i as int)),
            units <= offset,
        decreases n - i,
    {
        let width = units_of(bytes[i]);
        proof {
            lemma_utf16_len_step(bytes@, i as int);
        }
        if width > offset - units {
            proof {
                assert forall|b: int| i < b <= n implies utf16_len(#[trigger] bytes@.take(b))
                    > offset by {
                    lemma_utf16_len_monotone(bytes@, i + 1, b);
                }
                lemma_last_boundary_within_skip(bytes@, offset as int, n as int, i as int);
            }
            return i;
        }
        let ghost opened: int = i as int;
        units = units + width;
        i += 1;
        while i < n && is_continuation(bytes[i])
            invariant
                opened < i <= n == bytes@.len(),
                units == utf16_len(bytes@.take(i as int)),
                units <= offset,
            decreases n - i,
        {
            proof {
                lemma_utf16_len_step(bytes@, i as int);
            }
            i += 1;
        }
    }
    i
}

} // verus!
