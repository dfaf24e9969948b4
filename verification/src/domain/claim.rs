//! Filing a claim and deciding on it.
//!
//! A claim is pending when it is filed. A decision makes it approved or
//! rejected, and nothing leads on from there.

use crate::amount::Amount;
use crate::codec::text::text_fits;
use crate::error::ProgramError;
use crate::identity::{Pubkey, RecordId, RecordIdView};
use crate::records::{Claim, ClaimStatus, ClaimView, Policy, PolicyView, DESCRIPTION_WIDTH};
use vstd::prelude::*;

verus! {

/// The claim that is filed against `policy`, or why there is none. The
/// amount comes as a binary64 pattern: a NaN is invalid data, a negative or
/// infinite amount breaks a rule of the domain. So does an amount above the
/// policy's coverage, and any claim against a policy that is not active.
pub open spec fn filed_claim(
    policy: PolicyView,
    amount_bits: u64,
    description: Seq<char>,
    sequence: u32,
    now: u64,
) -> Result<ClaimView, ProgramError> {
    match Amount::parse_spec(amount_bits) {
        Err(error) => Err(error),
        Ok(amount) => if amount.value() > policy.coverage_amount.value() || !policy.active {
            Err(ProgramError::DomainInvariantViolation)
        } else {
            Ok(
                ClaimView {
                    id: RecordIdView { holder: policy.holder, sequence },
                    policy_id: policy.id,
                    amount,
                    description,
                    timestamp: now,
                    status: ClaimStatus::Pending,
                },
            )
        },
    }
}

/// The claim after the decision of `authority`, or why there is none. A
/// claim that is not pending admits no decision. The holder of the policy
/// is no authority over a claim against it: the signature of one who is, is
/// then missing.
pub open spec fn adjudicated_claim(claim: ClaimView, approved: bool, authority: Seq<u8>) -> Result<
    ClaimView,
    ProgramError,
> {
    if claim.status != ClaimStatus::Pending {
        Err(ProgramError::DomainInvariantViolation)
    } else if authority == claim.policy_id.holder {
        Err(ProgramError::MissingRequiredSignature)
    } else {
        Ok(
            ClaimView {
                status: if approved {
                    ClaimStatus::Approved
                } else {
                    ClaimStatus::Rejected
                },
                ..claim
            },
        )
    }
}

/// Files a claim of the policy's holder at the time `now`. Its identifier is
/// the holder's identity with `sequence`, the next number of the holder's
/// ledger.
pub fn file_claim(
    policy: &Policy,
    amount_bits: u64,
    description: String,
    sequence: u32,
    now: u64,
) -> (filed: Result<Claim, ProgramError>)
    requires
        policy@.wf(),
    ensures
        match filed {
            Ok(claim) => filed_claim(policy@, amount_bits, description@, sequence, now) == Ok::<
                ClaimView,
                ProgramError,
            >(claim@) && (text_fits(description@, DESCRIPTION_WIDTH as nat) ==> claim@.wf()),
            Err(error) => filed_claim(policy@, amount_bits, description@, sequence, now) == Err::<
                ClaimView,
                ProgramError,
            >(error),
        },
{
    let amount: Amount = Amount::parse(amount_bits)?;
    if amount.exceeds(&policy.coverage_amount) || !policy.active {
        return Err(ProgramError::DomainInvariantViolation);
    }
    Ok(
        Claim {
            id: RecordId { holder: policy.holder, sequence },
            policy_id: policy.id,
            amount,
            description,
            timestamp: now,
            status: ClaimStatus::Pending,
        },
    )
}

/// Decides a pending claim.
pub fn adjudicate_claim(claim: Claim, approved: bool, authority: &Pubkey) -> (decided: Result<
    Claim,
    ProgramError,
>)
    ensures
        match decided {
            Ok(after) => adjudicated_claim(claim@, approved, authority@) == Ok::<
                ClaimView,
                ProgramError,
            >(after@) && (claim@.wf() ==> after@.wf()),
            Err(error) => adjudicated_claim(claim@, approved, authority@) == Err::<
                ClaimView,
                ProgramError,
            >(error),
        },
{
    match claim.status {
        ClaimStatus::Pending => {},
        _ => {
            return Err(ProgramError::DomainInvariantViolation);
        },
    }
    if authority.same_as(&claim.policy_id.holder) {
        return Err(ProgramError::MissingRequiredSignature);
    }
    let status: ClaimStatus = if approved {
        ClaimStatus::Approved
    } else {
        ClaimStatus::Rejected
    };
    Ok(
        Claim {
            id: claim.id,
            policy_id: claim.policy_id,
            amount: claim.amount,
            description: claim.description,
            timestamp: claim.timestamp,
            status,
        },
    )
}

} // verus!
