//! Text in fixed-size slots.
//!
//! A slot holds the UTF-8 bytes of a text, followed by NUL bytes up to the
//! slot's width. Reading a slot drops the NUL bytes at its end and decodes
//! what is left; bytes that are no UTF-8 are not refused but replaced, each
//! ill-formed sequence by U+FFFD, as the standard library's lossy conversion
//! does it.

use vstd::prelude::*;
use vstd::slice::slice_subrange;
use vstd::utf8::{
    decode_utf8,
    encode_utf8,
    encode_utf8_decode_utf8,
    encode_utf8_valid_utf8,
    valid_utf8,
};

verus! {

/// The text that `String::from_utf8_lossy` makes of bytes that are not
/// well-formed UTF-8.
pub uninterp spec fn lossy_repair(bytes: Seq<u8>) -> Seq<char>;

/// The text that bytes are read as: what they encode, or the repaired text
/// where they encode none.
pub open spec fn lossy_text(bytes: Seq<u8>) -> Seq<char> {
    if valid_utf8(bytes) {
        decode_utf8(bytes)
    } else {
        lossy_repair(bytes)
    }
}

/// `bytes` without the NUL bytes at its end.
pub open spec fn trimmed(bytes: Seq<u8>) -> Seq<u8>
    decreases bytes.len(),
{
    if bytes.len() > 0 && bytes.last() == 0 {
        trimmed(bytes.drop_last())
    } else {
        bytes
    }
}

/// `count` NUL bytes.
pub open spec fn padding(count: nat) -> Seq<u8> {
    Seq::new(count, |i: int| 0u8)
}

/// Whether a slot of `width` bytes can hold `text` so that it is read back
/// unchanged: its encoding is not longer than the slot and does not end in
/// NUL.
pub open spec fn text_fits(text: Seq<char>, width: nat) -> bool {
    let bytes = encode_utf8(text);
    bytes.len() <= width && (bytes.len() > 0 ==> bytes.last() != 0)
}

/// The slot of `width` bytes that holds `text`.
pub open spec fn text_slot(text: Seq<char>, width: nat) -> Seq<u8> {
    let bytes = encode_utf8(text);
    bytes + padding((width - bytes.len()) as nat)
}

/// The text that a slot holds.
pub open spec fn slot_text(slot: Seq<u8>) -> Seq<char> {
    lossy_text(trimmed(slot))
}

/// Padding added to bytes that do not end in NUL is all that trimming takes
/// away.
pub proof fn lemma_trimmed_padding(bytes: Seq<u8>, count: nat)
    requires
        bytes.len() > 0 ==> bytes.last() != 0,
    ensures
        trimmed(bytes + padding(count)) == bytes,
    decreases count,
{
    let padded = bytes + padding(count);
    if count == 0 {
        assert(padded =~= bytes);
    } else {
        assert(padded.last() == 0);
        assert(padded.drop_last() =~= bytes + padding((count - 1) as nat));
        lemma_trimmed_padding(bytes, (count - 1) as nat);
    }
}

/// The slot of a text that fits has the slot's width.
pub proof fn lemma_text_slot_len(text: Seq<char>, width: nat)
    requires
        text_fits(text, width),
    ensures
        text_slot(text, width).len() == width,
{
}

/// A text that fits its slot is read back from it unchanged.
pub proof fn lemma_slot_round_trip(text: Seq<char>, width: nat)
    requires
        text_fits(text, width),
    ensures
        slot_text(text_slot(text, width)) == text,
{
    let bytes = encode_utf8(text);
    lemma_trimmed_padding(bytes, (width - bytes.len()) as nat);
    encode_utf8_valid_utf8(text);
    encode_utf8_decode_utf8(text);
}

/// `String::from_utf8_lossy`, with the result copied into a `String` of its
/// own. Not proved here: that bytes which are well-formed UTF-8 come back as
/// the text they encode, which the standard library documents; for all other
/// bytes the result is only given its name, [`lossy_repair`].
#[verifier::external_body]
fn utf8_lossy(bytes: &[u8]) -> (text: String)
    ensures
        text@ == lossy_text(bytes@),
        !valid_utf8(bytes@) ==> text@ == lossy_repair(bytes@),
{
    String::from_utf8_lossy(bytes).into_owned()
}

/// Reads the text in the slot of `width` bytes at `offset`.
pub fn read_text(data: &[u8], offset: usize, width: usize) -> (text: String)
    requires
        offset + width <= data@.len(),
    ensures
        text@ == slot_text(data@.subrange(offset as int, offset + width)),
{
    let total: usize = data.len();
    let mut stop: usize = offset + width;
    while stop > offset && data[stop - 1] == 0
        invariant
            offset <= stop <= offset + width <= data@.len() == total,
            trimmed(data@.subrange(offset as int, stop as int)) == trimmed(
                data@.subrange(offset as int, offset + width),
            ),
        decreases stop,
    {
        proof {
            let before = data@.subrange(offset as int, stop as int);
            assert(before.drop_last() =~= data@.subrange(offset as int, stop - 1));
        }
        stop -= 1;
    }
    utf8_lossy(slice_subrange(data, offset, stop))
}

/// Whether `text` fits a slot of `width` bytes.
pub fn fits_slot(text: &str, width: usize) -> (fits: bool)
    ensures
        fits == text_fits(text@, width as nat),
{
    let bytes = text.as_bytes();
    let count: usize = bytes.len();
    count <= width && (count == 0 || bytes[count - 1] != 0)
}

/// Appends the slot of `width` bytes that holds `text`.
pub fn push_text(out: &mut Vec<u8>, text: &str, width: usize)
    requires
        text_fits(text@, width as nat),
    ensures
        final(out)@ == old(out)@ + text_slot(text@, width as nat),
{
    let bytes = text.as_bytes();
    let count: usize = bytes.len();
    let mut i: usize = 0;
    while i < count
        invariant
            i <= count == bytes@.len(),
            out@ == old(out)@ + bytes@.subrange(0, i as int),
        decreases count - i,
    {
        out.push(bytes[i]);
        i += 1;
        assert(out@ =~= old(out)@ + bytes@.subrange(0, i as int));
    }
    assert(bytes@.subrange(0, count as int) =~= bytes@);
    while i < width
        invariant
            count <= i <= width,
            out@ == old(out)@ + bytes@ + padding((i - count) as nat),
        decreases width - i,
    {
        out.push(0);
        i += 1;
        assert(out@ =~= old(out)@ + bytes@ + padding((i - count) as nat));
    }
    assert(out@ =~= old(out)@ + text_slot(text@, width as nat));
}

} // verus!
