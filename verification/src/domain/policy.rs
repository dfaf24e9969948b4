//! Purchase of a policy.

use crate::amount::Amount;
use crate::codec::text::text_fits;
use crate::error::ProgramError;
use crate::identity::{Pubkey, RecordId, RecordIdView};
use crate::records::{Policy, PolicyView, PRODUCT_ID_WIDTH, SECONDS_PER_MONTH_APPROX};
use vstd::prelude::*;

verus! {

/// The policy that a purchase gives, or why there is none. The amounts come
/// as binary64 patterns: a NaN is invalid data; a negative or infinite
/// coverage or premium breaks a rule of the domain, and so does a duration
/// of no months, or one that ends beyond the last second that can be
/// written down. The coverage is looked at before the premium.
pub open spec fn purchased_policy(
    product_id: Seq<char>,
    coverage_bits: u64,
    premium_bits: u64,
    duration_months: u32,
    holder: Seq<u8>,
    sequence: u32,
    now: u64,
) -> Result<PolicyView, ProgramError> {
    match Amount::parse_spec(coverage_bits) {
        Err(error) => Err(error),
        Ok(coverage_amount) => match Amount::parse_spec(premium_bits) {
            Err(error) => Err(error),
            Ok(premium) => if duration_months == 0 || now + duration_months
                * SECONDS_PER_MONTH_APPROX > u64::MAX {
                Err(ProgramError::DomainInvariantViolation)
            } else {
                Ok(
                    PolicyView {
                        id: RecordIdView { holder, sequence },
                        holder,
                        product_id,
                        coverage_amount,
                        premium,
                        paid_amount: Amount { bits: 0 },
                        start_date: now,
                        end_date: (now + duration_months * SECONDS_PER_MONTH_APPROX) as u64,
                        last_payment_date: now,
                        active: true,
                    },
                )
            },
        },
    }
}

/// Makes the policy that `holder` purchases at the time `now`. It is
/// active, nothing is paid on it yet, and its identifier is the holder's
/// identity with `sequence`, the next number of the holder's ledger.
pub fn purchase_policy(
    product_id: String,
    coverage_bits: u64,
    premium_bits: u64,
    duration_months: u32,
    holder: Pubkey,
    sequence: u32,
    now: u64,
) -> (purchased: Result<Policy, ProgramError>)
    ensures
        match purchased {
            Ok(policy) => purchased_policy(
                product_id@,
                coverage_bits,
                premium_bits,
                duration_months,
                holder@,
                sequence,
                now,
            ) == Ok::<PolicyView, ProgramError>(policy@) && (text_fits(
                product_id@,
                PRODUCT_ID_WIDTH as nat,
            ) ==> policy@.wf()),
            Err(error) => purchased_policy(
                product_id@,
                coverage_bits,
                premium_bits,
                duration_months,
                holder@,
                sequence,
                now,
            ) == Err::<PolicyView, ProgramError>(error),
        },
{
    let coverage_amount: Amount = Amount::parse(coverage_bits)?;
    let premium: Amount = Amount::parse(premium_bits)?;
    if duration_months == 0 {
        return Err(ProgramError::DomainInvariantViolation);
    }
    let span: u64 = duration_months as u64 * SECONDS_PER_MONTH_APPROX;
    if span > u64::MAX - now {
        return Err(ProgramError::DomainInvariantViolation);
    }
    Ok(
        Policy {
            id: RecordId { holder, sequence },
            holder,
            product_id,
            coverage_amount,
            premium,
            paid_amount: Amount::zero(),
            start_date: now,
            end_date: now + span,
            last_payment_date: now,
            active: true,
        },
    )
}

} // verus!
