//! Lines and fences: where the lines of a note end, which of them are
//! fences, and what stands between two fences. The same is said twice, of a
//! note as text and of a note as bytes, and shown to agree.

use vstd::prelude::*;
use vstd::utf8::{
    decode_utf8, encode_scalar, encode_utf8, encode_utf8_decode_utf8, encode_utf8_valid_utf8,
    has_width_1_encoding, has_width_2_encoding, has_width_3_encoding, valid_utf8,
};

verus! {

/// The line that opens and closes a preamble, without its line break.
pub open spec fn fence() -> Seq<char> {
    seq!['-', '-', '-']
}

/// The line that opens and closes a preamble, with its line break.
pub open spec fn fence_line() -> Seq<char> {
    seq!['-', '-', '-', '\n']
}

/// Where the line that starts at `start` ends: just behind its line break, or
/// at the end of the text where it has none.
pub open spec fn line_end(text: Seq<char>, start: int) -> int
    decreases text.len() - start,
{
    if start >= text.len() {
        text.len() as int
    } else if text[start] == '\n' {
        start + 1
    } else {
        line_end(text, start + 1)
    }
}

/// The lines from `start` up to the first line that is a fence, given that a
/// line starts at `start`; `None` where no such line follows. The closing
/// fence may lack its line break only at the end of the text.
pub open spec fn fenced_block(text: Seq<char>, start: int) -> Option<Seq<char>>
    decreases text.len() - start,
{
    if start < 0 || start >= text.len() {
        None
    } else {
        let end = line_end(text, start);
        let line = text.subrange(start, end);
        if line == fence() || line == fence_line() {
            Some(Seq::empty())
        } else if end <= start || end > text.len() {
            None
        } else {
            match fenced_block(text, end) {
                Some(rest) => Some(line + rest),
                None => None,
            }
        }
    }
}

/// A line ends behind its start and within the text.
pub proof fn lemma_line_end_bounds(text: Seq<char>, start: int)
    requires
        0 <= start < text.len(),
    ensures
        start < line_end(text, start) <= text.len(),
    decreases text.len() - start,
{
    if text[start] != '\n' {
        if start + 1 < text.len() {
            lemma_line_end_bounds(text, start + 1);
        } else {
            assert(line_end(text, start + 1) == text.len());
        }
    }
}

/// The bytes of a fence, without its line break.
pub open spec fn fence_bytes() -> Seq<u8> {
    seq![0x2du8, 0x2du8, 0x2du8]
}

/// The bytes of a fence, with its line break.
pub open spec fn fence_line_bytes() -> Seq<u8> {
    seq![0x2du8, 0x2du8, 0x2du8, 0x0au8]
}

/// Where the line that starts at byte `start` ends: just behind its line
/// break, or at the end of the bytes where it has none.
pub open spec fn byte_line_end(bytes: Seq<u8>, start: int) -> int
    decreases bytes.len() - start,
{
    if start >= bytes.len() {
        bytes.len() as int
    } else if bytes[start] == 0x0au8 {
        start + 1
    } else {
        byte_line_end(bytes, start + 1)
    }
}

/// How the search for the closing fence ends.
pub enum BlockScan {
    /// The bytes end before a fence comes.
    Unterminated,
    /// A line before the fence is not UTF-8.
    InvalidText,
    /// The text of the lines before the fence.
    Block(Seq<char>),
}

/// The lines from byte `start` up to the first line that is a fence, given
/// that a line starts at `start`. The lines are read one by one, and each has
/// to be UTF-8; what follows the closing fence is never looked at.
pub open spec fn scanned_block(bytes: Seq<u8>, start: int) -> BlockScan
    decreases bytes.len() - start,
{
    if start < 0 || start >= bytes.len() {
        BlockScan::Unterminated
    } else {
        let end = byte_line_end(bytes, start);
        let line = bytes.subrange(start, end);
        if !valid_utf8(line) {
            BlockScan::InvalidText
        } else if line == fence_bytes() || line == fence_line_bytes() {
            BlockScan::Block(Seq::empty())
        } else if end <= start || end > bytes.len() {
            BlockScan::Unterminated
        } else {
            match scanned_block(bytes, end) {
                BlockScan::Block(rest) => BlockScan::Block(decode_utf8(line) + rest),
                other => other,
            }
        }
    }
}

/// A line ends behind its start and within the bytes.
pub proof fn lemma_byte_line_end_bounds(bytes: Seq<u8>, start: int)
    requires
        0 <= start < bytes.len(),
    ensures
        start < byte_line_end(bytes, start) <= bytes.len(),
    decreases bytes.len() - start,
{
    if bytes[start] != 0x0au8 {
        if start + 1 < bytes.len() {
            lemma_byte_line_end_bounds(bytes, start + 1);
        } else {
            assert(byte_line_end(bytes, start + 1) == bytes.len());
        }
    }
}

/// Finds where the line that starts at `start` ends.
pub(crate) fn find_line_end(bytes: &[u8], start: usize) -> (end: usize)
    requires
        start <= bytes.len(),
    ensures
        end == byte_line_end(bytes@, start as int),
        start <= end <= bytes.len(),
{
    let mut index: usize = start;
    while index < bytes.len()
        invariant
            start <= index <= bytes.len(),
            byte_line_end(bytes@, start as int) == byte_line_end(bytes@, index as int),
        decreases bytes.len() - index,
    {
        if bytes[index] == 0x0a {
            return index + 1;
        }
        index = index + 1;
    }
    index
}

/// Whether a line is a fence, with or without its line break.
pub(crate) fn is_fence(line: &[u8], with_break: bool) -> (found: bool)
    ensures
        found == (line@ == if with_break {
            fence_line_bytes()
        } else {
            fence_bytes()
        }),
{
    proof {
        assert(fence_line_bytes().len() == 4);
        assert(fence_bytes().len() == 3);
    }
    if with_break {
        if line.len() != 4 {
            return false;
        }
        let found = line[0] == 0x2d && line[1] == 0x2d && line[2] == 0x2d && line[3] == 0x0a;
        proof {
            if found {
                assert(line@ =~= fence_line_bytes());
            }
        }
        found
    } else {
        if line.len() != 3 {
            return false;
        }
        let found = line[0] == 0x2d && line[1] == 0x2d && line[2] == 0x2d;
        proof {
            if found {
                assert(line@ =~= fence_bytes());
            }
        }
        found
    }
}

/// Whether a line that starts at `start` or later is a fence, given that a
/// line starts at `start`.
pub open spec fn has_fence_line(text: Seq<char>, start: int) -> bool
    decreases text.len() - start,
{
    if start < 0 || start >= text.len() {
        false
    } else {
        let end = line_end(text, start);
        let line = text.subrange(start, end);
        line == fence() || line == fence_line() || (start < end <= text.len() && has_fence_line(
            text,
            end,
        ))
    }
}

/// In a text that ends with a line break, every line ends where it would
/// end with more text behind it.
pub proof fn lemma_line_end_ignores_tail(text: Seq<char>, tail: Seq<char>, start: int)
    requires
        0 <= start < text.len(),
        text.last() == '\n',
    ensures
        line_end(text + tail, start) == line_end(text, start),
        start < line_end(text, start) <= text.len(),
    decreases text.len() - start,
{
    assert((text + tail)[start] == text[start]);
    if text[start] != '\n' {
        lemma_line_end_ignores_tail(text, tail, start + 1);
    }
}

/// Lines that end with line breaks and hold no fence, with a fence behind
/// them, are a block that the fence closes, and the block is all of them.
pub proof fn lemma_fence_closes_block(lines: Seq<char>, start: int)
    requires
        0 <= start <= lines.len(),
        lines.len() > 0 ==> lines.last() == '\n',
        !has_fence_line(lines, start),
    ensures
        fenced_block(lines + fence(), start) == Some(lines.subrange(start, lines.len() as int)),
    decreases lines.len() - start,
{
    let text = lines + fence();
    if start == lines.len() {
        assert(text[start] == '-');
        assert(text[start + 1] == '-');
        assert(text[start + 2] == '-');
        assert(line_end(text, start + 3) == text.len());
        assert(line_end(text, start + 2) == text.len());
        assert(line_end(text, start + 1) == text.len());
        assert(line_end(text, start) == text.len());
        assert(text.subrange(start, text.len() as int) =~= fence());
        assert(lines.subrange(start, lines.len() as int) =~= Seq::<char>::empty());
    } else {
        lemma_line_end_ignores_tail(lines, fence(), start);
        let end = line_end(lines, start);
        let line = lines.subrange(start, end);
        assert(text.subrange(start, end) =~= line);
        lemma_fence_closes_block(lines, end);
        assert(line + lines.subrange(end, lines.len() as int) =~= lines.subrange(
            start,
            lines.len() as int,
        ));
    }
}

proof fn lemma_marked_bytes(low: u8)
    by (bit_vector)
    ensures
        (0x80u8 | low) != 0x0au8,
        (0xC0u8 | low) != 0x0au8,
        (0xE0u8 | low) != 0x0au8,
        (0xF0u8 | low) != 0x0au8,
{
}

proof fn lemma_plain_byte(scalar: u32)
    by (bit_vector)
    requires
        scalar <= 0x7Fu32,
    ensures
        (scalar & 0x7Fu32) == scalar,
{
}

/// Only the line break is encoded with the byte of the line break: every
/// other character is encoded without it.
pub proof fn lemma_line_break_byte(ch: char)
    ensures
        encode_scalar(ch as u32).len() >= 1,
        ch == '\n' ==> encode_scalar(ch as u32) == seq![0x0au8],
        ch != '\n' ==> forall|k: int|
            0 <= k < encode_scalar(ch as u32).len() ==> #[trigger] encode_scalar(ch as u32)[k]
                != 0x0au8,
{
    let scalar = ch as u32;
    let bytes = encode_scalar(scalar);
    if has_width_1_encoding(scalar) {
        lemma_plain_byte(scalar);
        assert(bytes =~= seq![scalar as u8]);
    } else if has_width_2_encoding(scalar) {
        lemma_marked_bytes(((scalar >> 6) & 0x1F) as u8);
        lemma_marked_bytes((scalar & 0x3F) as u8);
    } else if has_width_3_encoding(scalar) {
        lemma_marked_bytes(((scalar >> 12) & 0x0F) as u8);
        lemma_marked_bytes(((scalar >> 6) & 0x3F) as u8);
        lemma_marked_bytes((scalar & 0x3F) as u8);
    } else {
        lemma_marked_bytes(((scalar >> 18) & 0x7) as u8);
        lemma_marked_bytes(((scalar >> 12) & 0x3F) as u8);
        lemma_marked_bytes(((scalar >> 6) & 0x3F) as u8);
        lemma_marked_bytes((scalar & 0x3F) as u8);
    }
}

/// The encoding of two texts, one behind the other, is their encodings, one
/// behind the other.
pub proof fn lemma_encode_concat(left: Seq<char>, right: Seq<char>)
    ensures
        encode_utf8(left + right) == encode_utf8(left) + encode_utf8(right),
    decreases left.len(),
{
    if left.len() == 0 {
        assert(left + right =~= right);
        assert(encode_utf8(left) + encode_utf8(right) =~= encode_utf8(right));
    } else {
        lemma_encode_concat(left.drop_first(), right);
        assert((left + right).drop_first() =~= left.drop_first() + right);
        assert((left + right)[0] == left[0]);
        assert(encode_utf8(left + right) =~= encode_utf8(left) + encode_utf8(right));
    }
}

/// One character is encoded as its scalar is.
pub proof fn lemma_encode_single(ch: char)
    ensures
        encode_utf8(seq![ch]) == encode_scalar(ch as u32),
{
    let single = seq![ch];
    assert(single.drop_first() =~= Seq::<char>::empty());
    assert(encode_utf8(single.drop_first()) =~= Seq::<u8>::empty());
    assert(encode_utf8(single) =~= encode_scalar(single[0] as u32) + encode_utf8(
        single.drop_first(),
    ));
    assert(encode_utf8(single) =~= encode_scalar(ch as u32));
}

/// How many bytes encode the first `count` characters of `text`.
pub open spec fn encoded_length(text: Seq<char>, count: int) -> int {
    encode_utf8(text.take(count)).len() as int
}

/// The characters from `start` up to `end` are encoded by the bytes from
/// where the encoding of `start` characters ends up to where that of `end`
/// characters ends, and every character takes at least one byte.
pub proof fn lemma_encoded_subrange(text: Seq<char>, start: int, end: int)
    requires
        0 <= start <= end <= text.len(),
    ensures
        0 <= encoded_length(text, start) <= encoded_length(text, end) <= encode_utf8(text).len(),
        encoded_length(text, end) - encoded_length(text, start) >= end - start,
        encode_utf8(text).subrange(encoded_length(text, start), encoded_length(text, end))
            == encode_utf8(text.subrange(start, end)),
        encoded_length(text, text.len() as int) == encode_utf8(text).len(),
        encoded_length(text, 0) == 0,
{
    let head = text.take(start);
    let middle = text.subrange(start, end);
    let tail = text.skip(end);
    assert(text.take(end) =~= head + middle);
    assert(text =~= text.take(end) + tail);
    lemma_encode_concat(head, middle);
    lemma_encode_concat(text.take(end), tail);
    lemma_encoded_count(middle);
    assert(text.take(text.len() as int) =~= text);
    assert(text.take(0) =~= Seq::<char>::empty());
    assert(encode_utf8(text).subrange(encoded_length(text, start), encoded_length(text, end))
        =~= encode_utf8(middle));
}

/// A text is encoded with at least as many bytes as it has characters.
pub proof fn lemma_encoded_count(text: Seq<char>)
    ensures
        encode_utf8(text).len() >= text.len(),
    decreases text.len(),
{
    if text.len() > 0 {
        lemma_line_break_byte(text[0]);
        lemma_encoded_count(text.drop_first());
    }
}

/// From a byte on, a line ends where it ends from any later byte that no
/// line break comes before.
pub proof fn lemma_byte_line_end_skips(bytes: Seq<u8>, start: int, later: int)
    requires
        0 <= start <= later <= bytes.len(),
        forall|k: int| start <= k < later ==> #[trigger] bytes[k] != 0x0au8,
    ensures
        byte_line_end(bytes, start) == byte_line_end(bytes, later),
    decreases later - start,
{
    if start < later {
        lemma_byte_line_end_skips(bytes, start + 1, later);
    }
}

/// The lines of a text and the lines of its encoding end at the same
/// characters.
pub proof fn lemma_line_ends_agree(text: Seq<char>, start: int)
    requires
        0 <= start <= text.len(),
    ensures
        byte_line_end(encode_utf8(text), encoded_length(text, start)) == encoded_length(
            text,
            line_end(text, start),
        ),
        start <= line_end(text, start) <= text.len(),
    decreases text.len() - start,
{
    let bytes = encode_utf8(text);
    lemma_encoded_subrange(text, start, text.len() as int);
    if start < text.len() {
        let ch = text[start];
        lemma_encoded_subrange(text, start, start + 1);
        lemma_line_break_byte(ch);
        let here = encoded_length(text, start);
        let next = encoded_length(text, start + 1);
        let encoded = encode_scalar(ch as u32);
        assert(text.subrange(start, start + 1) =~= seq![ch]);
        lemma_encode_single(ch);
        assert(bytes.subrange(here, next) == encoded);
        assert forall|k: int| here <= k < next implies bytes[k] == encoded[k - here] by {
            assert(bytes.subrange(here, next)[k - here] == bytes[k]);
        }
        if ch == '\n' {
            assert(bytes[here] == 0x0au8);
        } else {
            lemma_line_ends_agree(text, start + 1);
            assert forall|k: int| here <= k < next implies #[trigger] bytes[k] != 0x0au8 by {
                assert(bytes[k] == encoded[k - here]);
            }
            lemma_byte_line_end_skips(bytes, here, next);
        }
    }
}

/// A text is a fence exactly where its encoding is the bytes of a fence.
pub proof fn lemma_fence_bytes(text: Seq<char>)
    ensures
        encode_utf8(text) == fence_bytes() <==> text == fence(),
        encode_utf8(text) == fence_line_bytes() <==> text == fence_line(),
{
    lemma_encode_fences();
    encode_utf8_decode_utf8(text);
    encode_utf8_decode_utf8(fence());
    encode_utf8_decode_utf8(fence_line());
}

proof fn lemma_encode_fences()
    ensures
        encode_utf8(fence()) == fence_bytes(),
        encode_utf8(fence_line()) == fence_line_bytes(),
{
    lemma_plain_byte(0x2du32);
    lemma_plain_byte(0x0au32);
    assert(encode_scalar('-' as u32) =~= seq![0x2du8]);
    assert(encode_scalar('\n' as u32) =~= seq![0x0au8]);
    let dash = seq!['-'];
    let line_break = seq!['\n'];
    lemma_encode_single('-');
    lemma_encode_single('\n');
    lemma_encode_concat(dash, dash);
    lemma_encode_concat(dash + dash, dash);
    lemma_encode_concat(dash + dash + dash, line_break);
    assert(dash + dash + dash =~= fence());
    assert(dash + dash + dash + line_break =~= fence_line());
    assert(encode_utf8(fence()) =~= fence_bytes());
    assert(encode_utf8(fence_line()) =~= fence_line_bytes());
}

/// The block that a fence closes is the same whether the lines are looked
/// for in a text or in its encoding.
pub proof fn lemma_blocks_agree(text: Seq<char>, start: int)
    requires
        0 <= start <= text.len(),
    ensures
        scanned_block(encode_utf8(text), encoded_length(text, start)) == match fenced_block(
            text,
            start,
        ) {
            Some(block) => BlockScan::Block(block),
            None => BlockScan::Unterminated,
        },
    decreases text.len() - start,
{
    let bytes = encode_utf8(text);
    lemma_encoded_subrange(text, start, text.len() as int);
    if start < text.len() {
        lemma_line_ends_agree(text, start);
        lemma_line_end_bounds(text, start);
        let end = line_end(text, start);
        let line = text.subrange(start, end);
        lemma_encoded_subrange(text, start, end);
        lemma_encoded_subrange(text, end, text.len() as int);
        lemma_fence_bytes(line);
        encode_utf8_valid_utf8(line);
        encode_utf8_decode_utf8(line);
        lemma_blocks_agree(text, end);
    }
}

} // verus!
