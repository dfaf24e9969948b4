//! The fields that records are laid out from, besides numbers and text:
//! flags, amounts, identities and identifiers.

use crate::amount::{Amount, MAX_FINITE_BITS};
use crate::codec::number::{
    le_bytes,
    le_value,
    lemma_le_bytes_len,
    lemma_le_limit_values,
    lemma_le_value_bound,
    lemma_le_value_of_bytes,
    push_u32,
    push_u64,
    read_u32,
    read_u64,
};
use crate::error::ProgramError;
use crate::identity::{Pubkey, RecordId, RecordIdView, KEY_LEN};
use vstd::prelude::*;

verus! {

/// Bytes that an identifier takes: the holder's identity and the number.
pub const ID_LEN: usize = 36;

/// Bytes that an amount takes.
pub const AMOUNT_LEN: usize = 8;

/// The byte that stands for a flag.
pub open spec fn flag_byte(flag: bool) -> u8 {
    if flag {
        1
    } else {
        0
    }
}

/// Whether the byte at `offset` stands for a flag.
pub open spec fn flag_ok_at(data: Seq<u8>, offset: int) -> bool {
    data[offset] <= 1
}

/// The flag that the byte at `offset` stands for.
pub open spec fn flag_at(data: Seq<u8>, offset: int) -> bool {
    data[offset] == 1
}

/// The bytes of an amount: its binary64 pattern, little-endian.
pub open spec fn amount_bytes(amount: Amount) -> Seq<u8> {
    le_bytes(amount.bits as nat, AMOUNT_LEN as nat)
}

/// The binary64 pattern in the eight bytes at `offset`.
pub open spec fn pattern_at(data: Seq<u8>, offset: int) -> u64 {
    le_value(data.subrange(offset, offset + AMOUNT_LEN)) as u64
}

/// Whether the eight bytes at `offset` hold an amount.
pub open spec fn amount_ok_at(data: Seq<u8>, offset: int) -> bool {
    pattern_at(data, offset) <= MAX_FINITE_BITS
}

/// The amount in the eight bytes at `offset`.
pub open spec fn amount_at(data: Seq<u8>, offset: int) -> Amount {
    Amount { bits: pattern_at(data, offset) }
}

/// The four-byte number at `offset`.
pub open spec fn u32_at(data: Seq<u8>, offset: int) -> u32 {
    le_value(data.subrange(offset, offset + 4)) as u32
}

/// The eight-byte number at `offset`.
pub open spec fn u64_at(data: Seq<u8>, offset: int) -> u64 {
    le_value(data.subrange(offset, offset + 8)) as u64
}

/// The bytes of an identifier.
pub open spec fn id_bytes(id: RecordIdView) -> Seq<u8> {
    id.holder + le_bytes(id.sequence as nat, 4)
}

/// The identifier in the bytes at `offset`.
pub open spec fn id_at(data: Seq<u8>, offset: int) -> RecordIdView {
    RecordIdView {
        holder: data.subrange(offset, offset + KEY_LEN),
        sequence: u32_at(data, offset + KEY_LEN),
    }
}

/// A four-byte number is read back from where its bytes are.
pub proof fn lemma_u32_at(data: Seq<u8>, offset: int, value: u32)
    requires
        0 <= offset,
        offset + 4 <= data.len(),
        data.subrange(offset, offset + 4) == le_bytes(value as nat, 4),
    ensures
        u32_at(data, offset) == value,
{
    lemma_le_limit_values();
    lemma_le_value_of_bytes(value as nat, 4);
}

/// An eight-byte number is read back from where its bytes are.
pub proof fn lemma_u64_at(data: Seq<u8>, offset: int, value: u64)
    requires
        0 <= offset,
        offset + 8 <= data.len(),
        data.subrange(offset, offset + 8) == le_bytes(value as nat, 8),
    ensures
        u64_at(data, offset) == value,
{
    lemma_le_limit_values();
    lemma_le_value_of_bytes(value as nat, 8);
}

/// An amount is read back from where its bytes are.
pub proof fn lemma_amount_at(data: Seq<u8>, offset: int, amount: Amount)
    requires
        0 <= offset,
        offset + AMOUNT_LEN <= data.len(),
        data.subrange(offset, offset + AMOUNT_LEN) == amount_bytes(amount),
        amount.wf(),
    ensures
        amount_ok_at(data, offset),
        amount_at(data, offset) == amount,
{
    lemma_u64_at(data, offset, amount.bits);
}

/// An identifier is read back from where its bytes are.
pub proof fn lemma_id_at(data: Seq<u8>, offset: int, id: RecordIdView)
    requires
        0 <= offset,
        offset + ID_LEN <= data.len(),
        data.subrange(offset, offset + ID_LEN) == id_bytes(id),
        id.holder.len() == KEY_LEN,
    ensures
        id_at(data, offset) == id,
{
    let part = data.subrange(offset, offset + ID_LEN);
    lemma_le_bytes_len(id.sequence as nat, 4);
    assert(data.subrange(offset, offset + KEY_LEN) =~= part.subrange(0, KEY_LEN as int));
    assert(part.subrange(0, KEY_LEN as int) =~= id.holder);
    assert(data.subrange(offset + KEY_LEN, offset + KEY_LEN + 4) =~= part.subrange(
        KEY_LEN as int,
        ID_LEN as int,
    ));
    assert(part.subrange(KEY_LEN as int, ID_LEN as int) =~= le_bytes(id.sequence as nat, 4));
    lemma_u32_at(data, offset + KEY_LEN, id.sequence);
}

/// An identifier of a holder takes as many bytes as identifiers do.
pub proof fn lemma_id_bytes_len(id: RecordIdView)
    requires
        id.holder.len() == KEY_LEN,
    ensures
        id_bytes(id).len() == ID_LEN,
{
    lemma_le_bytes_len(id.sequence as nat, 4);
}

/// Reads the flag at `offset`; a byte other than 0 and 1 is none.
pub fn read_flag(data: &[u8], offset: usize) -> (flag: Result<bool, ProgramError>)
    requires
        offset < data@.len(),
    ensures
        flag == if flag_ok_at(data@, offset as int) {
            Ok::<bool, ProgramError>(flag_at(data@, offset as int))
        } else {
            Err(ProgramError::InvalidInstructionData)
        },
{
    let byte: u8 = data[offset];
    if byte > 1 {
        Err(ProgramError::InvalidInstructionData)
    } else {
        Ok(byte == 1)
    }
}

/// Appends the byte of a flag.
pub fn push_flag(out: &mut Vec<u8>, flag: bool)
    ensures
        final(out)@ == old(out)@ + seq![flag_byte(flag)],
{
    out.push(if flag { 1 } else { 0 });
    assert(out@ =~= old(out)@ + seq![flag_byte(flag)]);
}

/// Reads the binary64 pattern at `offset`.
pub fn read_pattern(data: &[u8], offset: usize) -> (bits: u64)
    requires
        offset + AMOUNT_LEN <= data@.len(),
    ensures
        bits == pattern_at(data@, offset as int),
{
    proof {
        lemma_le_value_bound(data@.subrange(offset as int, offset + 8));
        lemma_le_limit_values();
    }
    read_u64(data, offset)
}

/// Reads the stored amount at `offset`; a pattern with a sign bit, of
/// infinity or of a NaN is none.
pub fn read_amount(data: &[u8], offset: usize) -> (amount: Result<Amount, ProgramError>)
    requires
        offset + AMOUNT_LEN <= data@.len(),
    ensures
        amount == if amount_ok_at(data@, offset as int) {
            Ok::<Amount, ProgramError>(amount_at(data@, offset as int))
        } else {
            Err(ProgramError::InvalidInstructionData)
        },
{
    let bits: u64 = read_pattern(data, offset);
    if bits > MAX_FINITE_BITS {
        Err(ProgramError::InvalidInstructionData)
    } else {
        Ok(Amount { bits })
    }
}

/// Appends the bytes of an amount.
pub fn push_amount(out: &mut Vec<u8>, amount: &Amount)
    ensures
        final(out)@ == old(out)@ + amount_bytes(*amount),
{
    push_u64(out, amount.bits);
}

/// Reads the four-byte number at `offset`.
pub fn read_count(data: &[u8], offset: usize) -> (value: u32)
    requires
        offset + 4 <= data@.len(),
    ensures
        value == u32_at(data@, offset as int),
{
    read_u32(data, offset)
}

/// Reads the eight-byte number at `offset`.
pub fn read_time(data: &[u8], offset: usize) -> (value: u64)
    requires
        offset + 8 <= data@.len(),
    ensures
        value == u64_at(data@, offset as int),
{
    proof {
        lemma_le_value_bound(data@.subrange(offset as int, offset + 8));
        lemma_le_limit_values();
    }
    read_u64(data, offset)
}

/// Reads the identifier at `offset`.
pub fn read_id(data: &[u8], offset: usize) -> (id: RecordId)
    requires
        offset + ID_LEN <= data@.len(),
    ensures
        id@ == id_at(data@, offset as int),
{
    assert(data@.len() == data.len());
    let holder: Pubkey = Pubkey::read(data, offset);
    let sequence: u32 = read_u32(data, offset + KEY_LEN);
    RecordId { holder, sequence }
}

/// Appends the bytes of an identifier.
pub fn push_id(out: &mut Vec<u8>, id: &RecordId)
    ensures
        final(out)@ == old(out)@ + id_bytes(id@),
{
    id.holder.push_to(out);
    push_u32(out, id.sequence);
    assert(out@ =~= old(out)@ + id_bytes(id@));
}

} // verus!
