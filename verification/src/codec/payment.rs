//! The layout of a payment: amount, identifier of the policy, timestamp.

use crate::amount::Amount;
use crate::codec::field::{
    amount_at,
    amount_bytes,
    amount_ok_at,
    id_at,
    id_bytes,
    lemma_amount_at,
    lemma_id_at,
    lemma_id_bytes_len,
    lemma_u64_at,
    push_amount,
    push_id,
    read_amount,
    read_id,
    read_time,
    u64_at,
};
use crate::codec::number::{le_bytes, lemma_le_bytes_len, push_u64};
use crate::codec::overwritten;
use crate::error::ProgramError;
use crate::identity::RecordId;
use crate::records::{Payment, PaymentView};
use vstd::prelude::*;

verus! {

/// Bytes that a payment takes.
pub const PAYMENT_LEN: usize = 52;

/// The bytes of a payment.
pub open spec fn payment_bytes(payment: PaymentView) -> Seq<u8> {
    amount_bytes(payment.amount) + id_bytes(payment.policy_id) + le_bytes(
        payment.timestamp as nat,
        8,
    )
}

/// The payment that the fields at the start of `data` spell.
pub open spec fn payment_at(data: Seq<u8>) -> PaymentView {
    PaymentView {
        amount: amount_at(data, 0),
        policy_id: id_at(data, 8),
        timestamp: u64_at(data, 44),
    }
}

/// The payment stored at the start of `data`. There is none where `data` is
/// shorter than a payment, or where the amount is no amount or nothing.
pub open spec fn payment_of_bytes(data: Seq<u8>) -> Result<PaymentView, ProgramError> {
    if data.len() >= PAYMENT_LEN && amount_ok_at(data, 0) && payment_at(data).wf() {
        Ok(payment_at(data))
    } else {
        Err(ProgramError::InvalidInstructionData)
    }
}

/// The bytes of a valid payment are as many as a payment takes.
pub proof fn lemma_payment_bytes_len(payment: PaymentView)
    requires
        payment.wf(),
    ensures
        payment_bytes(payment).len() == PAYMENT_LEN,
{
    lemma_le_bytes_len(payment.amount.bits as nat, 8);
    lemma_id_bytes_len(payment.policy_id);
    lemma_le_bytes_len(payment.timestamp as nat, 8);
}

/// A valid payment written to the start of storage that has room for it is
/// read back from that storage, whatever the storage holds behind it.
pub proof fn lemma_payment_read_back(payment: PaymentView, storage: Seq<u8>)
    requires
        payment.wf(),
        storage.len() >= PAYMENT_LEN,
    ensures
        payment_of_bytes(overwritten(storage, payment_bytes(payment))) == Ok::<PaymentView, ProgramError>(
            payment,
        ),
{
    let data = overwritten(storage, payment_bytes(payment));
    lemma_payment_bytes_len(payment);
    lemma_le_bytes_len(payment.amount.bits as nat, 8);
    lemma_id_bytes_len(payment.policy_id);
    lemma_le_bytes_len(payment.timestamp as nat, 8);
    assert(data.subrange(0, 8) =~= amount_bytes(payment.amount));
    assert(data.subrange(8, 44) =~= id_bytes(payment.policy_id));
    assert(data.subrange(44, 52) =~= le_bytes(payment.timestamp as nat, 8));
    lemma_amount_at(data, 0, payment.amount);
    lemma_id_at(data, 8, payment.policy_id);
    lemma_u64_at(data, 44, payment.timestamp);
}

/// A valid payment is read back from its bytes.
pub proof fn lemma_payment_round_trip(payment: PaymentView)
    requires
        payment.wf(),
    ensures
        payment_bytes(payment).len() == PAYMENT_LEN,
        payment_of_bytes(payment_bytes(payment)) == Ok::<PaymentView, ProgramError>(payment),
{
    let bytes = payment_bytes(payment);
    lemma_payment_bytes_len(payment);
    lemma_payment_read_back(payment, bytes);
    assert(overwritten(bytes, bytes) =~= bytes);
}

/// Lays a payment out in bytes.
pub fn encode_payment(payment: &Payment) -> (bytes: Vec<u8>)
    requires
        payment@.wf(),
    ensures
        bytes@ == payment_bytes(payment@),
        bytes@.len() == PAYMENT_LEN,
{
    let mut out: Vec<u8> = Vec::new();
    push_amount(&mut out, &payment.amount);
    push_id(&mut out, &payment.policy_id);
    push_u64(&mut out, payment.timestamp);
    proof {
        lemma_payment_bytes_len(payment@);
        assert(out@ =~= payment_bytes(payment@));
    }
    out
}

/// Reads the payment stored at the start of `data`.
pub fn decode_payment(data: &[u8]) -> (decoded: Result<Payment, ProgramError>)
    ensures
        match decoded {
            Ok(payment) => payment_of_bytes(data@) == Ok::<PaymentView, ProgramError>(payment@)
                && payment@.wf(),
            Err(error) => payment_of_bytes(data@) == Err::<PaymentView, ProgramError>(error),
        },
{
    if data.len() < PAYMENT_LEN {
        return Err(ProgramError::InvalidInstructionData);
    }
    let amount: Amount = read_amount(data, 0)?;
    let policy_id: RecordId = read_id(data, 8);
    let timestamp: u64 = read_time(data, 44);
    if !amount.is_positive() {
        return Err(ProgramError::InvalidInstructionData);
    }
    Ok(Payment { amount, policy_id, timestamp })
}

} // verus!
