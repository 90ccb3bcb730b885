//! Operations on the text buffer as a sequence of UTF-8 bytes: splicing a
//! replacement into a range, and finding the line breaks around an offset.

use vstd::prelude::*;
use vstd::string::*;
use vstd::utf8::*;

use crate::codec::is_scalar_boundary;
use crate::codec::lemma_scalar_boundary_is_char_boundary;

verus! {

/// The byte that encodes a line break.
pub const LINE_BREAK: u8 = 0x0a;

/// `bytes` with `insert` in the place of the bytes from `start` up to `end`:
/// the bytes before `start`, then `insert`, then the bytes from `end` on.
pub open spec fn spliced(bytes: Seq<u8>, start: int, end: int, insert: Seq<u8>) -> Seq<u8> {
    bytes.subrange(0, start) + insert + bytes.subrange(end, bytes.len() as int)
}

/// The start of the line that holds the bytes before `upto`: the place after
/// the last line break before `upto`, or 0 if there is none.
pub open spec fn line_start(bytes: Seq<u8>, upto: int) -> int
    decreases upto,
{
    if upto <= 0 {
        0
    } else if bytes[upto - 1] == LINE_BREAK {
        upto
    } else {
        line_start(bytes, upto - 1)
    }
}

/// The end of the line that holds the byte at `from`: the place of the first
/// line break at or after `from`, or the length if there is none.
pub open spec fn line_end(bytes: Seq<u8>, from: int) -> int
    decreases bytes.len() - from,
{
    if from >= bytes.len() {
        bytes.len() as int
    } else if bytes[from] == LINE_BREAK {
        from
    } else {
        line_end(bytes, from + 1)
    }
}

/// The encoding of a concatenation is the concatenation of the encodings.
pub proof fn lemma_encode_concat(a: Seq<char>, b: Seq<char>)
    ensures
        encode_utf8(a + b) == encode_utf8(a) + encode_utf8(b),
    decreases a.len(),
{
    if a.len() == 0 {
        assert(a + b =~= b);
        assert(encode_utf8(a) + encode_utf8(b) =~= encode_utf8(b));
    } else {
        assert((a + b).drop_first() =~= a.drop_first() + b);
        assert((a + b)[0] == a[0]);
        lemma_encode_concat(a.drop_first(), b);
        assert(encode_utf8(a + b) =~= encode_utf8(a) + encode_utf8(b));
    }
}

/// In valid UTF-8 the place after a line break is a scalar boundary.
pub proof fn lemma_boundary_after_break(bytes: Seq<u8>, at: int)
    requires
        valid_utf8(bytes),
        0 < at <= bytes.len(),
        bytes[at - 1] == LINE_BREAK,
    ensures
        is_scalar_boundary(bytes, at),
{
    if at < bytes.len() {
        lemma_scalar_boundary_is_char_boundary(bytes, at - 1);
        valid_utf8_split(bytes, at - 1);
        let suffix = bytes.subrange(at - 1, bytes.len() as int);
        assert(suffix[0] == bytes[at - 1]);
        let rest = pop_first_scalar(suffix);
        assert(rest =~= bytes.subrange(at, bytes.len() as int));
        assert(valid_utf8(suffix));
        assert(valid_utf8(rest)) by {
            reveal_with_fuel(valid_utf8, 2);
        }
        assert(valid_first_scalar(rest)) by {
            reveal_with_fuel(valid_utf8, 2);
        }
        assert(rest[0] == bytes[at]);
    }
}

/// In valid UTF-8 the start of the line before a scalar boundary is a scalar
/// boundary at most `upto`.
pub proof fn lemma_line_start(bytes: Seq<u8>, upto: int)
    requires
        valid_utf8(bytes),
        is_scalar_boundary(bytes, upto),
    ensures
        0 <= line_start(bytes, upto) <= upto,
        is_scalar_boundary(bytes, line_start(bytes, upto)),
{
    lemma_line_start_bounds(bytes, upto);
    lemma_after_break(bytes, upto);
    let s = line_start(bytes, upto);
    if s == 0 {
        is_char_boundary_start_end_of_seq(bytes);
        lemma_scalar_boundary_is_char_boundary(bytes, 0);
    } else {
        lemma_boundary_after_break(bytes, s);
    }
}

/// The end of the line from a place within the bytes is a scalar boundary at
/// or after it.
pub proof fn lemma_line_end(bytes: Seq<u8>, from: int)
    requires
        0 <= from <= bytes.len(),
    ensures
        from <= line_end(bytes, from) <= bytes.len(),
        is_scalar_boundary(bytes, line_end(bytes, from)),
    decreases bytes.len() - from,
{
    if from < bytes.len() && bytes[from] != LINE_BREAK {
        lemma_line_end(bytes, from + 1);
    }
}

/// The start of a line lies between 0 and `upto`.
proof fn lemma_line_start_bounds(bytes: Seq<u8>, upto: int)
    requires
        0 <= upto <= bytes.len(),
    ensures
        0 <= line_start(bytes, upto) <= upto,
    decreases upto,
{
    if upto > 0 && bytes[upto - 1] != LINE_BREAK {
        lemma_line_start_bounds(bytes, upto - 1);
    }
}

/// A line start other than 0 follows a line break.
proof fn lemma_after_break(bytes: Seq<u8>, upto: int)
    requires
        0 <= upto <= bytes.len(),
    ensures
        line_start(bytes, upto) > 0 ==> bytes[line_start(bytes, upto) - 1] == LINE_BREAK,
    decreases upto,
{
    if upto > 0 && bytes[upto - 1] != LINE_BREAK {
        lemma_after_break(bytes, upto - 1);
    }
}

/// The text with `insert` in the place of the bytes from `start` up to
/// `end`. With `end` before `start` the bytes between the two stand on both
/// sides of `insert`.
pub fn splice(text: &str, start: usize, end: usize, insert: &str) -> (r: String)
    requires
        is_scalar_boundary(text.spec_bytes(), start as int),
        is_scalar_boundary(text.spec_bytes(), end as int),
    ensures
        encode_utf8(r@) == spliced(
            text.spec_bytes(),
            start as int,
            end as int,
            insert.spec_bytes(),
        ),
{
    proof {
        encode_utf8_valid_utf8(text@);
        lemma_scalar_boundary_is_char_boundary(text.spec_bytes(), start as int);
        lemma_scalar_boundary_is_char_boundary(text.spec_bytes(), end as int);
    }
    let (prefix, _) = text.split_at(start);
    let (_, suffix) = text.split_at(end);
    let mut r = String::from_str(prefix);
    r.append(insert);
    r.append(suffix);
    proof {
        lemma_encode_concat(prefix@, insert@);
        lemma_encode_concat(prefix@ + insert@, suffix@);
    }
    r
}

/// The start of the line that holds the bytes of `text` before `upto`.
pub fn find_line_start(text: &str, upto: usize) -> (r: usize)
    requires
        upto <= text.spec_bytes().len(),
    ensures
        r == line_start(text.spec_bytes(), upto as int),
        r <= upto,
{
    let bytes = text.as_bytes();
    let mut i: usize = upto;
    while i > 0 && bytes[i - 1] != LINE_BREAK
        invariant
            i <= upto <= bytes@.len(),
            line_start(bytes@, i as int) == line_start(bytes@, upto as int),
        decreases i,
    {
        i -= 1;
    }
    i
}

/// The end of the line that holds the byte of `text` at `from`.
pub fn find_line_end(text: &str, from: usize) -> (r: usize)
    requires
        from <= text.spec_bytes().len(),
    ensures
        r == line_end(text.spec_bytes(), from as int),
        from <= r <= text.spec_bytes().len(),
{
    let bytes = text.as_bytes();
    let n = bytes.len();
    let mut i: usize = from;
    while i < n && bytes[i] != LINE_BREAK
        invariant
            from <= i <= n == bytes@.len(),
            line_end(bytes@, i as int) == line_end(bytes@, from as int),
        decreases n - i,
    {
        i += 1;
    }
    i
}

} // verus!
