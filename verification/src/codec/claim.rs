//! The layout of a claim.
//!
//! | bytes    | field                                   |
//! |----------|-----------------------------------------|
//! | 0..36    | identifier: holder, then number         |
//! | 36..72   | identifier of the policy                |
//! | 72..80   | amount                                  |
//! | 80..208  | description                             |
//! | 208..216 | timestamp                               |
//! | 216      | status: 0 pending, 1 approved, 2 rejected |

use crate::amount::Amount;
use crate::codec::field::{
    amount_at,
    amount_bytes,
    amount_ok_at,
    id_at,
    id_bytes,
    lemma_amount_at,
    lemma_id_at,
    lemma_id_bytes_len,
    lemma_u64_at,
    push_amount,
    push_id,
    read_amount,
    read_id,
    read_time,
    u64_at,
};
use crate::codec::number::{le_bytes, lemma_le_bytes_len, push_u64};
use crate::codec::text::{
    fits_slot,
    lemma_slot_round_trip,
    lemma_text_slot_len,
    push_text,
    read_text,
    slot_text,
    text_slot,
};
use crate::codec::overwritten;
use crate::error::ProgramError;
use crate::identity::RecordId;
use crate::records::{Claim, ClaimStatus, ClaimView, DESCRIPTION_WIDTH};
use vstd::prelude::*;

verus! {

/// Bytes that a claim takes.
pub const CLAIM_LEN: usize = 217;

/// The byte that stands for a status.
pub open spec fn status_byte(status: ClaimStatus) -> u8 {
    match status {
        ClaimStatus::Pending => 0,
        ClaimStatus::Approved => 1,
        ClaimStatus::Rejected => 2,
    }
}

/// Whether the byte at `offset` stands for a status.
pub open spec fn status_ok_at(data: Seq<u8>, offset: int) -> bool {
    data[offset] <= 2
}

/// The status that the byte at `offset` stands for.
pub open spec fn status_at(data: Seq<u8>, offset: int) -> ClaimStatus {
    if data[offset] == 0 {
        ClaimStatus::Pending
    } else if data[offset] == 1 {
        ClaimStatus::Approved
    } else {
        ClaimStatus::Rejected
    }
}

/// The bytes of a claim.
pub open spec fn claim_bytes(claim: ClaimView) -> Seq<u8> {
    id_bytes(claim.id) + id_bytes(claim.policy_id) + amount_bytes(claim.amount) + text_slot(
        claim.description,
        DESCRIPTION_WIDTH as nat,
    ) + le_bytes(claim.timestamp as nat, 8) + seq![status_byte(claim.status)]
}

/// The claim that the fields at the start of `data` spell.
pub open spec fn claim_at(data: Seq<u8>) -> ClaimView {
    ClaimView {
        id: id_at(data, 0),
        policy_id: id_at(data, 36),
        amount: amount_at(data, 72),
        description: slot_text(data.subrange(80, 208)),
        timestamp: u64_at(data, 208),
        status: status_at(data, 216),
    }
}

/// The claim stored at the start of `data`. There is none where `data` is
/// shorter than a claim, where the amount is no amount or the status no
/// status, or where the description would not go back into its slot.
pub open spec fn claim_of_bytes(data: Seq<u8>) -> Result<ClaimView, ProgramError> {
    if data.len() >= CLAIM_LEN && amount_ok_at(data, 72) && status_ok_at(data, 216) && claim_at(
        data,
    ).wf() {
        Ok(claim_at(data))
    } else {
        Err(ProgramError::InvalidInstructionData)
    }
}

/// The bytes of a valid claim are as many as a claim takes.
pub proof fn lemma_claim_bytes_len(claim: ClaimView)
    requires
        claim.wf(),
    ensures
        claim_bytes(claim).len() == CLAIM_LEN,
{
    lemma_id_bytes_len(claim.id);
    lemma_id_bytes_len(claim.policy_id);
    lemma_le_bytes_len(claim.amount.bits as nat, 8);
    lemma_text_slot_len(claim.description, DESCRIPTION_WIDTH as nat);
    lemma_le_bytes_len(claim.timestamp as nat, 8);
}

/// A valid claim written to the start of storage that has room for it is
/// read back from that storage, whatever the storage holds behind it.
pub proof fn lemma_claim_read_back(claim: ClaimView, storage: Seq<u8>)
    requires
        claim.wf(),
        storage.len() >= CLAIM_LEN,
    ensures
        claim_of_bytes(overwritten(storage, claim_bytes(claim))) == Ok::<ClaimView, ProgramError>(
            claim,
        ),
{
    let data = overwritten(storage, claim_bytes(claim));
    lemma_claim_bytes_len(claim);
    lemma_id_bytes_len(claim.id);
    lemma_id_bytes_len(claim.policy_id);
    lemma_le_bytes_len(claim.amount.bits as nat, 8);
    lemma_text_slot_len(claim.description, DESCRIPTION_WIDTH as nat);
    lemma_le_bytes_len(claim.timestamp as nat, 8);
    assert(data.subrange(0, 36) =~= id_bytes(claim.id));
    assert(data.subrange(36, 72) =~= id_bytes(claim.policy_id));
    assert(data.subrange(72, 80) =~= amount_bytes(claim.amount));
    assert(data.subrange(80, 208) =~= text_slot(claim.description, DESCRIPTION_WIDTH as nat));
    assert(data.subrange(208, 216) =~= le_bytes(claim.timestamp as nat, 8));
    assert(data[216] == status_byte(claim.status));
    lemma_id_at(data, 0, claim.id);
    lemma_id_at(data, 36, claim.policy_id);
    lemma_amount_at(data, 72, claim.amount);
    lemma_slot_round_trip(claim.description, DESCRIPTION_WIDTH as nat);
    lemma_u64_at(data, 208, claim.timestamp);
}

/// A valid claim is read back from its bytes.
pub proof fn lemma_claim_round_trip(claim: ClaimView)
    requires
        claim.wf(),
    ensures
        claim_bytes(claim).len() == CLAIM_LEN,
        claim_of_bytes(claim_bytes(claim)) == Ok::<ClaimView, ProgramError>(claim),
{
    let bytes = claim_bytes(claim);
    lemma_claim_bytes_len(claim);
    lemma_claim_read_back(claim, bytes);
    assert(overwritten(bytes, bytes) =~= bytes);
}

/// Reads the status at `offset`; a byte above 2 is none.
pub fn read_status(data: &[u8], offset: usize) -> (status: Result<ClaimStatus, ProgramError>)
    requires
        offset < data@.len(),
    ensures
        status == if status_ok_at(data@, offset as int) {
            Ok::<ClaimStatus, ProgramError>(status_at(data@, offset as int))
        } else {
            Err(ProgramError::InvalidInstructionData)
        },
{
    let byte: u8 = data[offset];
    if byte == 0 {
        Ok(ClaimStatus::Pending)
    } else if byte == 1 {
        Ok(ClaimStatus::Approved)
    } else if byte == 2 {
        Ok(ClaimStatus::Rejected)
    } else {
        Err(ProgramError::InvalidInstructionData)
    }
}

/// Appends the byte of a status.
pub fn push_status(out: &mut Vec<u8>, status: ClaimStatus)
    ensures
        final(out)@ == old(out)@ + seq![status_byte(status)],
{
    let byte: u8 = match status {
        ClaimStatus::Pending => 0,
        ClaimStatus::Approved => 1,
        ClaimStatus::Rejected => 2,
    };
    out.push(byte);
    assert(out@ =~= old(out)@ + seq![status_byte(status)]);
}

/// Lays a claim out in bytes.
pub fn encode_claim(claim: &Claim) -> (bytes: Vec<u8>)
    requires
        claim@.wf(),
    ensures
        bytes@ == claim_bytes(claim@),
        bytes@.len() == CLAIM_LEN,
{
    let mut out: Vec<u8> = Vec::new();
    push_id(&mut out, &claim.id);
    push_id(&mut out, &claim.policy_id);
    push_amount(&mut out, &claim.amount);
    push_text(&mut out, claim.description.as_str(), DESCRIPTION_WIDTH);
    push_u64(&mut out, claim.timestamp);
    push_status(&mut out, claim.status);
    proof {
        lemma_claim_bytes_len(claim@);
        assert(out@ =~= claim_bytes(claim@));
    }
    out
}

/// Reads the claim stored at the start of `data`.
pub fn decode_claim(data: &[u8]) -> (decoded: Result<Claim, ProgramError>)
    ensures
        match decoded {
            Ok(claim) => claim_of_bytes(data@) == Ok::<ClaimView, ProgramError>(claim@)
                && claim@.wf(),
            Err(error) => claim_of_bytes(data@) == Err::<ClaimView, ProgramError>(error),
        },
{
    if data.len() < CLAIM_LEN {
        return Err(ProgramError::InvalidInstructionData);
    }
    let id: RecordId = read_id(data, 0);
    let policy_id: RecordId = read_id(data, 36);
    let amount: Amount = read_amount(data, 72)?;
    let description: String = read_text(data, 80, DESCRIPTION_WIDTH);
    let timestamp: u64 = read_time(data, 208);
    let status: ClaimStatus = read_status(data, 216)?;
    if !fits_slot(description.as_str(), DESCRIPTION_WIDTH) {
        return Err(ProgramError::InvalidInstructionData);
    }
    Ok(Claim { id, policy_id, amount, description, timestamp, status })
}

} // verus!
