//! Tokenizer: scans a byte buffer and yields the next lexeme span.
//!
//! A lexeme span is a pair `(beginning, end)` of byte offsets into the
//! source buffer. Leading whitespace (space, CR, LF) is skipped; a zero
//! byte marks logical end of input, exactly like the end of the buffer.
//! The delimiter bytes space, CR, LF, `,`, `(`, `)` and `:` end a token,
//! and each of them lexes as a single-character token of its own.

use vstd::prelude::*;
use crate::error::{Error, ErrorType};

verus! {

/// The whitespace set: space, carriage return, line feed.
pub open spec fn is_whitespace(b: u8) -> bool {
    b == 32 || b == 13 || b == 10
}

/// The delimiter set: the whitespace bytes plus `,` `(` `)` `:`.
pub open spec fn is_delimiter(b: u8) -> bool {
    is_whitespace(b) || b == 44 || b == 40 || b == 41 || b == 58
}

/// Where the next token begins: the first offset at or after `start`
/// holding a non-whitespace byte, or the buffer's end.
pub open spec fn token_begin(src: Seq<u8>, start: int) -> int
    recommends
        0 <= start <= src.len(),
    decreases src.len() - start when 0 <= start <= src.len()
{
    if start < src.len() && is_whitespace(src[start]) {
        token_begin(src, start + 1)
    } else {
        start
    }
}

/// How far a token that begins at `beg` extends: the first offset at or
/// after `beg` holding a delimiter or the zero sentinel, or the buffer's
/// end.
pub open spec fn token_end(src: Seq<u8>, beg: int) -> int
    recommends
        0 <= beg <= src.len(),
    decreases src.len() - beg when 0 <= beg <= src.len()
{
    if beg < src.len() && !is_delimiter(src[beg]) && src[beg] != 0 {
        token_end(src, beg + 1)
    } else {
        beg
    }
}

/// The span the tokenizer yields from `src` at cursor `start`, or `None`
/// at (logical) end of input. A delimiter byte yields the length-one span
/// holding exactly that byte.
pub open spec fn lex_spec(src: Seq<u8>, start: int) -> Option<(int, int)>
    recommends
        0 <= start <= src.len(),
{
    let beg = token_begin(src, start);
    if beg >= src.len() || src[beg] == 0 {
        None
    } else {
        let scan = token_end(src, beg);
        let end = if scan == beg {
            beg + 1
        } else {
            scan
        };
        Some((beg, end))
    }
}

/// The mathematical span of an executable result.
pub open spec fn span_of(sp: Option<(usize, usize)>) -> Option<(int, int)> {
    match sp {
        Some((b, e)) => Some((b as int, e as int)),
        None => None,
    }
}

/// Whether byte `b` occurs in `set`.
pub fn is_in(set: &[u8], b: u8) -> (r: bool)
    ensures
        r == set@.contains(b),
{
    let mut i: usize = 0;
    while i < set.len()
        invariant
            0 <= i <= set@.len(),
            forall|j: int| 0 <= j < i ==> set@[j] != b,
        decreases set@.len() - i,
    {
        if set[i] == b {
            return true;
        }
        i += 1;
    }
    false
}

/// Whether `b` is in the whitespace set.
fn byte_is_whitespace(b: u8) -> (r: bool)
    ensures
        r == is_whitespace(b),
{
    b == 32 || b == 13 || b == 10
}

/// Whether `b` is in the delimiter set.
fn byte_is_delimiter(b: u8) -> (r: bool)
    ensures
        r == is_delimiter(b),
{
    byte_is_whitespace(b) || b == 44 || b == 40 || b == 41 || b == 58
}

/// Lex the next token from `source`, starting at `start`.
///
/// A cursor past the end of the buffer is a malformed call and fails with
/// an `Arguments` error. Otherwise the result is exactly `lex_spec`:
/// `Ok(None)` at (logical) end of input, else `Ok(Some((beginning, end)))`.
/// Purely a function of `(source, start)`: the same arguments always
/// yield the same span.
pub fn lex(source: &[u8], start: usize) -> (r: Result<Option<(usize, usize)>, Error>)
    ensures
        start > source@.len() ==> (r matches Err(e) && e.kind == ErrorType::Arguments),
        start <= source@.len() ==> (r matches Ok(sp) && span_of(sp) == lex_spec(
            source@,
            start as int,
        )),
{
    if start > source.len() {
        return Err(Error { kind: ErrorType::Arguments, msg: None });
    }
    let mut beg: usize = start;
    while beg < source.len() && byte_is_whitespace(source[beg])
        invariant
            start <= beg <= source@.len(),
            token_begin(source@, start as int) == token_begin(source@, beg as int),
        decreases source@.len() - beg,
    {
        beg = beg + 1;
    }
    if beg >= source.len() {
        return Ok(None);
    }
    if source[beg] == 0 {
        return Ok(None);
    }
    let mut end: usize = beg;
    while end < source.len() && !byte_is_delimiter(source[end]) && source[end] != 0
        invariant
            beg <= end <= source@.len(),
            token_end(source@, beg as int) == token_end(source@, end as int),
        decreases source@.len() - end,
    {
        end = end + 1;
    }
    if end == beg {
        end = beg + 1;
    }
    Ok(Some((beg, end)))
}

/// Where a token begins never lies before the cursor nor past the end of
/// the buffer.
pub proof fn lemma_token_begin_bounds(src: Seq<u8>, start: int)
    requires
        0 <= start <= src.len(),
    ensures
        start <= token_begin(src, start) <= src.len(),
    decreases src.len() - start,
{
    if start < src.len() && is_whitespace(src[start]) {
        lemma_token_begin_bounds(src, start + 1);
    }
}

/// Where a token's scan ends never lies before its beginning nor past the
/// end of the buffer.
pub proof fn lemma_token_end_bounds(src: Seq<u8>, beg: int)
    requires
        0 <= beg <= src.len(),
    ensures
        beg <= token_end(src, beg) <= src.len(),
    decreases src.len() - beg,
{
    if beg < src.len() && !is_delimiter(src[beg]) && src[beg] != 0 {
        lemma_token_end_bounds(src, beg + 1);
    }
}

/// Every span the tokenizer yields is non-empty, starts no earlier than
/// the cursor, and stays within the buffer.
pub proof fn lemma_lex_span_in_bounds(src: Seq<u8>, start: int)
    requires
        0 <= start <= src.len(),
        lex_spec(src, start) is Some,
    ensures
        ({
            let (b, e) = lex_spec(src, start)->Some_0;
            start <= b < e <= src.len()
        }),
{
    lemma_token_begin_bounds(src, start);
    let b = token_begin(src, start);
    lemma_token_end_bounds(src, b);
}

/// Tokenizer determinism: the span lexed from a buffer at a cursor is a
/// function of the buffer and the cursor alone, so repeated calls with
/// the same arguments — in particular, re-lexing the same span from the
/// same start offset over an unmodified buffer — yield the same result.
pub proof fn lemma_lex_deterministic(
    src: Seq<u8>,
    start: int,
    r1: Option<(int, int)>,
    r2: Option<(int, int)>,
)
    requires
        r1 == lex_spec(src, start),
        r2 == lex_spec(src, start),
    ensures
        r1 == r2,
{
}

} // verus!
