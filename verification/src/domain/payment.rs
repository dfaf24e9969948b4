//! Premium payments.

use crate::amount::{binary64_sum, Amount, INFINITY_BITS};
use crate::error::ProgramError;
use crate::records::{Payment, PaymentView, Policy, PolicyView};
use vstd::prelude::*;

verus! {

/// The payment that is received for `policy`, or why there is none. The
/// amount comes as a binary64 pattern: a NaN is invalid data, a negative or
/// infinite amount breaks a rule of the domain. So does an amount of
/// nothing, and any payment on a policy that is not active.
pub open spec fn received_payment(policy: PolicyView, amount_bits: u64, now: u64) -> Result<
    PaymentView,
    ProgramError,
> {
    match Amount::parse_spec(amount_bits) {
        Err(error) => Err(error),
        Ok(amount) => if amount.value() == 0 || !policy.active {
            Err(ProgramError::DomainInvariantViolation)
        } else {
            Ok(PaymentView { amount, policy_id: policy.id, timestamp: now })
        },
    }
}

/// The policy after `payment` was added to what is paid on it. The sum is
/// the binary64 sum; a sum that is no finite number breaks a rule of the
/// domain. Nothing else of the policy changes but the date of the last
/// payment.
pub open spec fn credited_policy(policy: PolicyView, payment: PaymentView) -> Result<
    PolicyView,
    ProgramError,
> {
    let total = binary64_sum(policy.paid_amount, payment.amount);
    if total >= INFINITY_BITS {
        Err(ProgramError::DomainInvariantViolation)
    } else {
        Ok(
            PolicyView {
                paid_amount: Amount { bits: total },
                last_payment_date: payment.timestamp,
                ..policy
            },
        )
    }
}

/// The policy after a payment of the given amount at the time `now`, or why
/// the payment is refused.
pub open spec fn applied_payment(policy: PolicyView, amount_bits: u64, now: u64) -> Result<
    PolicyView,
    ProgramError,
> {
    match received_payment(policy, amount_bits, now) {
        Err(error) => Err(error),
        Ok(payment) => credited_policy(policy, payment),
    }
}

/// Takes a payment for `policy` at the time `now`.
pub fn receive_payment(policy: &Policy, amount_bits: u64, now: u64) -> (received: Result<
    Payment,
    ProgramError,
>)
    requires
        policy@.wf(),
    ensures
        match received {
            Ok(payment) => received_payment(policy@, amount_bits, now) == Ok::<
                PaymentView,
                ProgramError,
            >(payment@) && payment@.wf(),
            Err(error) => received_payment(policy@, amount_bits, now) == Err::<
                PaymentView,
                ProgramError,
            >(error),
        },
{
    let amount: Amount = Amount::parse(amount_bits)?;
    if !amount.is_positive() || !policy.active {
        return Err(ProgramError::DomainInvariantViolation);
    }
    Ok(Payment { amount, policy_id: policy.id, timestamp: now })
}

/// Adds a payment to what is paid on `policy`.
pub fn credit_payment(policy: Policy, payment: &Payment) -> (credited: Result<
    Policy,
    ProgramError,
>)
    requires
        policy@.wf(),
        payment@.wf(),
    ensures
        match credited {
            Ok(after) => credited_policy(policy@, payment@) == Ok::<PolicyView, ProgramError>(
                after@,
            ) && after@.wf(),
            Err(error) => credited_policy(policy@, payment@) == Err::<PolicyView, ProgramError>(
                error,
            ),
        },
{
    match policy.paid_amount.checked_add(&payment.amount) {
        None => Err(ProgramError::DomainInvariantViolation),
        Some(paid_amount) => Ok(
            Policy {
                id: policy.id,
                holder: policy.holder,
                product_id: policy.product_id,
                coverage_amount: policy.coverage_amount,
                premium: policy.premium,
                paid_amount,
                start_date: policy.start_date,
                end_date: policy.end_date,
                last_payment_date: payment.timestamp,
                active: policy.active,
            },
        ),
    }
}

/// Applies a payment of the given amount to `policy` at the time `now`. No
/// policy is made by this: the one that comes back is the one that went in,
/// with more paid on it.
pub fn apply_payment(policy: Policy, amount_bits: u64, now: u64) -> (applied: Result<
    Policy,
    ProgramError,
>)
    requires
        policy@.wf(),
    ensures
        match applied {
            Ok(after) => applied_payment(policy@, amount_bits, now) == Ok::<
                PolicyView,
                ProgramError,
            >(after@) && after@.wf(),
            Err(error) => applied_payment(policy@, amount_bits, now) == Err::<
                PolicyView,
                ProgramError,
            >(error),
        },
{
    let payment: Payment = receive_payment(&policy, amount_bits, now)?;
    credit_payment(policy, &payment)
}

} // verus!
