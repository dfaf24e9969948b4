//! The failures an instruction can end in.

use vstd::prelude::*;

verus! {

/// Why an instruction was refused.
#[derive(Clone, Copy, Debug, PartialEq, Eq, Structural)]
pub enum ProgramError {
    /// Unknown opcode, payload too short, or a fixed-width field that holds
    /// no value of its type.
    InvalidInstructionData,
    /// The account that must authorise the operation did not sign.
    MissingRequiredSignature,
    /// An account is absent, is not owned by the program, or does not belong
    /// to the record it is used with.
    AccountValidationFailure,
    /// A business rule forbids the operation.
    DomainInvariantViolation,
}

impl ProgramError {
    /// The name of the failure, for reports.
    pub fn name(&self) -> (text: &'static str)
        ensures
            text@ == match *self {
                ProgramError::InvalidInstructionData => "InvalidInstructionData"@,
                ProgramError::MissingRequiredSignature => "MissingRequiredSignature"@,
                ProgramError::AccountValidationFailure => "AccountValidationFailure"@,
                ProgramError::DomainInvariantViolation => "DomainInvariantViolation"@,
            },
    {
        match self {
            ProgramError::InvalidInstructionData => "InvalidInstructionData",
            ProgramError::MissingRequiredSignature => "MissingRequiredSignature",
            ProgramError::AccountValidationFailure => "AccountValidationFailure",
            ProgramError::DomainInvariantViolation => "DomainInvariantViolation",
        }
    }
}

} // verus!
