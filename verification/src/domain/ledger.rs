//! Issuing identifiers to a holder.

use crate::error::ProgramError;
use crate::records::HolderLedger;
use vstd::prelude::*;

verus! {

/// The number of the next identifier of a holder, and the holder's ledger
/// after it was issued. Nothing can be issued once the count has reached
/// the largest number, which itself is never given out.
pub open spec fn issued_next(ledger: HolderLedger) -> Result<(u32, HolderLedger), ProgramError> {
    if ledger.issued == u32::MAX {
        Err(ProgramError::DomainInvariantViolation)
    } else {
        Ok((ledger.issued, HolderLedger { issued: (ledger.issued + 1) as u32 }))
    }
}

/// Issues the next identifier number of a holder.
pub fn issue_next(ledger: HolderLedger) -> (issued: Result<(u32, HolderLedger), ProgramError>)
    ensures
        issued == issued_next(ledger),
{
    if ledger.issued == u32::MAX {
        Err(ProgramError::DomainInvariantViolation)
    } else {
        Ok((ledger.issued, HolderLedger { issued: ledger.issued + 1 }))
    }
}

} // verus!
