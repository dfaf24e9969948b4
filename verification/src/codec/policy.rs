//! The layout of a policy.
//!
//! | bytes    | field                                   |
//! |----------|-----------------------------------------|
//! | 0..36    | identifier: holder, then number         |
//! | 36..68   | product identifier                      |
//! | 68..76   | coverage amount                         |
//! | 76..84   | premium                                 |
//! | 84..92   | paid amount                             |
//! | 92..100  | start date                              |
//! | 100..108 | end date                                |
//! | 108..116 | date of the last payment                |
//! | 116      | active flag                             |
//!
//! The holder is stored once, in the identifier.

use crate::amount::Amount;
use crate::codec::field::{
    amount_at,
    amount_bytes,
    amount_ok_at,
    flag_at,
    flag_byte,
    flag_ok_at,
    id_at,
    id_bytes,
    lemma_amount_at,
    lemma_id_at,
    lemma_id_bytes_len,
    lemma_u64_at,
    push_amount,
    push_flag,
    push_id,
    read_amount,
    read_flag,
    read_id,
    read_time,
    u64_at,
};
use crate::codec::number::{le_bytes, lemma_le_bytes_len, push_u64};
use crate::codec::text::{
    fits_slot,
    lemma_slot_round_trip,
    lemma_text_slot_len,
    push_text,
    read_text,
    slot_text,
    text_slot,
};
use crate::codec::overwritten;
use crate::error::ProgramError;
use crate::identity::RecordId;
use crate::records::{Policy, PolicyView, PRODUCT_ID_WIDTH};
use vstd::prelude::*;

verus! {

/// Bytes that a policy takes.
pub const POLICY_LEN: usize = 117;

/// The bytes of a policy.
pub open spec fn policy_bytes(policy: PolicyView) -> Seq<u8> {
    id_bytes(policy.id) + text_slot(policy.product_id, PRODUCT_ID_WIDTH as nat) + amount_bytes(
        policy.coverage_amount,
    ) + amount_bytes(policy.premium) + amount_bytes(policy.paid_amount) + le_bytes(
        policy.start_date as nat,
        8,
    ) + le_bytes(policy.end_date as nat, 8) + le_bytes(policy.last_payment_date as nat, 8)
        + seq![flag_byte(policy.active)]
}

/// The policy that the fields at the start of `data` spell.
pub open spec fn policy_at(data: Seq<u8>) -> PolicyView {
    PolicyView {
        id: id_at(data, 0),
        holder: id_at(data, 0).holder,
        product_id: slot_text(data.subrange(36, 68)),
        coverage_amount: amount_at(data, 68),
        premium: amount_at(data, 76),
        paid_amount: amount_at(data, 84),
        start_date: u64_at(data, 92),
        end_date: u64_at(data, 100),
        last_payment_date: u64_at(data, 108),
        active: flag_at(data, 116),
    }
}

/// The policy stored at the start of `data`. There is none where `data` is
/// shorter than a policy, where an amount is no amount or the flag no flag,
/// where the product identifier would not go back into its slot, or where
/// the end is not after the start.
pub open spec fn policy_of_bytes(data: Seq<u8>) -> Result<PolicyView, ProgramError> {
    if data.len() >= POLICY_LEN && amount_ok_at(data, 68) && amount_ok_at(data, 76)
        && amount_ok_at(data, 84) && flag_ok_at(data, 116) && policy_at(data).wf() {
        Ok(policy_at(data))
    } else {
        Err(ProgramError::InvalidInstructionData)
    }
}

/// The bytes of a valid policy are as many as a policy takes.
pub proof fn lemma_policy_bytes_len(policy: PolicyView)
    requires
        policy.wf(),
    ensures
        policy_bytes(policy).len() == POLICY_LEN,
{
    lemma_id_bytes_len(policy.id);
    lemma_text_slot_len(policy.product_id, PRODUCT_ID_WIDTH as nat);
    lemma_le_bytes_len(policy.coverage_amount.bits as nat, 8);
    lemma_le_bytes_len(policy.premium.bits as nat, 8);
    lemma_le_bytes_len(policy.paid_amount.bits as nat, 8);
    lemma_le_bytes_len(policy.start_date as nat, 8);
    lemma_le_bytes_len(policy.end_date as nat, 8);
    lemma_le_bytes_len(policy.last_payment_date as nat, 8);
}

/// A valid policy written to the start of storage that has room for it is
/// read back from that storage, whatever the storage holds behind it.
pub proof fn lemma_policy_read_back(policy: PolicyView, storage: Seq<u8>)
    requires
        policy.wf(),
        storage.len() >= POLICY_LEN,
    ensures
        policy_of_bytes(overwritten(storage, policy_bytes(policy))) == Ok::<PolicyView, ProgramError>(
            policy,
        ),
{
    let data = overwritten(storage, policy_bytes(policy));
    lemma_policy_bytes_len(policy);
    lemma_id_bytes_len(policy.id);
    lemma_text_slot_len(policy.product_id, PRODUCT_ID_WIDTH as nat);
    lemma_le_bytes_len(policy.coverage_amount.bits as nat, 8);
    lemma_le_bytes_len(policy.premium.bits as nat, 8);
    lemma_le_bytes_len(policy.paid_amount.bits as nat, 8);
    lemma_le_bytes_len(policy.start_date as nat, 8);
    lemma_le_bytes_len(policy.end_date as nat, 8);
    lemma_le_bytes_len(policy.last_payment_date as nat, 8);
    assert(data.subrange(0, 36) =~= id_bytes(policy.id));
    assert(data.subrange(36, 68) =~= text_slot(policy.product_id, PRODUCT_ID_WIDTH as nat));
    assert(data.subrange(68, 76) =~= amount_bytes(policy.coverage_amount));
    assert(data.subrange(76, 84) =~= amount_bytes(policy.premium));
    assert(data.subrange(84, 92) =~= amount_bytes(policy.paid_amount));
    assert(data.subrange(92, 100) =~= le_bytes(policy.start_date as nat, 8));
    assert(data.subrange(100, 108) =~= le_bytes(policy.end_date as nat, 8));
    assert(data.subrange(108, 116) =~= le_bytes(policy.last_payment_date as nat, 8));
    assert(data[116] == flag_byte(policy.active));
    lemma_id_at(data, 0, policy.id);
    lemma_slot_round_trip(policy.product_id, PRODUCT_ID_WIDTH as nat);
    lemma_amount_at(data, 68, policy.coverage_amount);
    lemma_amount_at(data, 76, policy.premium);
    lemma_amount_at(data, 84, policy.paid_amount);
    lemma_u64_at(data, 92, policy.start_date);
    lemma_u64_at(data, 100, policy.end_date);
    lemma_u64_at(data, 108, policy.last_payment_date);
}

/// A valid policy is read back from its bytes.
pub proof fn lemma_policy_round_trip(policy: PolicyView)
    requires
        policy.wf(),
    ensures
        policy_bytes(policy).len() == POLICY_LEN,
        policy_of_bytes(policy_bytes(policy)) == Ok::<PolicyView, ProgramError>(policy),
{
    let bytes = policy_bytes(policy);
    lemma_policy_bytes_len(policy);
    lemma_policy_read_back(policy, bytes);
    assert(overwritten(bytes, bytes) =~= bytes);
}

/// Lays a policy out in bytes.
pub fn encode_policy(policy: &Policy) -> (bytes: Vec<u8>)
    requires
        policy@.wf(),
    ensures
        bytes@ == policy_bytes(policy@),
        bytes@.len() == POLICY_LEN,
{
    let mut out: Vec<u8> = Vec::new();
    push_id(&mut out, &policy.id);
    push_text(&mut out, policy.product_id.as_str(), PRODUCT_ID_WIDTH);
    push_amount(&mut out, &policy.coverage_amount);
    push_amount(&mut out, &policy.premium);
    push_amount(&mut out, &policy.paid_amount);
    push_u64(&mut out, policy.start_date);
    push_u64(&mut out, policy.end_date);
    push_u64(&mut out, policy.last_payment_date);
    push_flag(&mut out, policy.active);
    proof {
        lemma_policy_bytes_len(policy@);
        assert(out@ =~= policy_bytes(policy@));
    }
    out
}

/// Reads the policy stored at the start of `data`.
pub fn decode_policy(data: &[u8]) -> (decoded: Result<Policy, ProgramError>)
    ensures
        match decoded {
            Ok(policy) => policy_of_bytes(data@) == Ok::<PolicyView, ProgramError>(policy@)
                && policy@.wf(),
            Err(error) => policy_of_bytes(data@) == Err::<PolicyView, ProgramError>(error),
        },
{
    if data.len() < POLICY_LEN {
        return Err(ProgramError::InvalidInstructionData);
    }
    let id: RecordId = read_id(data, 0);
    let product_id: String = read_text(data, 36, PRODUCT_ID_WIDTH);
    let coverage_amount: Amount = read_amount(data, 68)?;
    let premium: Amount = read_amount(data, 76)?;
    let paid_amount: Amount = read_amount(data, 84)?;
    let start_date: u64 = read_time(data, 92);
    let end_date: u64 = read_time(data, 100);
    let last_payment_date: u64 = read_time(data, 108);
    let active: bool = read_flag(data, 116)?;
    if !fits_slot(product_id.as_str(), PRODUCT_ID_WIDTH) || end_date <= start_date {
        return Err(ProgramError::InvalidInstructionData);
    }
    Ok(
        Policy {
            id,
            holder: id.holder,
            product_id,
            coverage_amount,
            premium,
            paid_amount,
            start_date,
            end_date,
            last_payment_date,
            active,
        },
    )
}

} // verus!
