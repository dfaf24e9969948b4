//! The entry point: one instruction, from opcode to committed records.
//!
//! An instruction is one opcode byte followed by the payload of the
//! operation. Every operation first looks at the payload's length, then at
//! the signature of the first account, at the number of accounts, at owner
//! and size of each account that holds a record, and only then reads
//! records and applies the rules of the domain. Records are written after
//! the last check has passed, so an instruction that fails has changed
//! nothing.

use crate::account::{
    account_views,
    check_signer,
    check_storage,
    signer_check,
    storage_check,
    store_record,
    stored,
    AccountInfo,
    AccountView,
};
use crate::codec::claim::{claim_bytes, claim_of_bytes, decode_claim, encode_claim, CLAIM_LEN};
use crate::codec::field::{pattern_at, read_count, read_pattern, u32_at};
use crate::codec::ledger::{
    decode_ledger,
    encode_ledger,
    ledger_bytes,
    ledger_of_bytes,
    LEDGER_LEN,
};
use crate::codec::policy::{
    decode_policy,
    encode_policy,
    policy_bytes,
    policy_of_bytes,
    POLICY_LEN,
};
use crate::codec::profile::{encode_profile, profile_bytes, PROFILE_LEN};
use crate::codec::text::{fits_slot, read_text, slot_text, text_fits};
use crate::domain::claim::{adjudicate_claim, adjudicated_claim, file_claim, filed_claim};
use crate::domain::ledger::{issue_next, issued_next};
use crate::domain::payment::{applied_payment, apply_payment};
use crate::domain::policy::{purchase_policy, purchased_policy};
use crate::domain::profile::{create_profile, created_profile};
use crate::error::ProgramError;
use crate::identity::Pubkey;
use crate::records::{
    Claim,
    HolderLedger,
    Policy,
    UserProfile,
    DESCRIPTION_WIDTH,
    EMAIL_WIDTH,
    NAME_WIDTH,
    PRODUCT_ID_WIDTH,
};
use vstd::prelude::*;
use vstd::slice::slice_subrange;

verus! {

/// The operations, in the order of their opcodes from 0.
#[derive(Clone, Copy, Debug, PartialEq, Eq, Structural)]
pub enum Instruction {
    CreateProfile,
    PurchasePolicy,
    FileClaim,
    ProcessClaim,
    MakePayment,
}

impl Instruction {
    /// The operation that an opcode stands for.
    pub open spec fn of_opcode(opcode: u8) -> Option<Instruction> {
        if opcode == 0 {
            Some(Instruction::CreateProfile)
        } else if opcode == 1 {
            Some(Instruction::PurchasePolicy)
        } else if opcode == 2 {
            Some(Instruction::FileClaim)
        } else if opcode == 3 {
            Some(Instruction::ProcessClaim)
        } else if opcode == 4 {
            Some(Instruction::MakePayment)
        } else {
            None
        }
    }

    /// The least number of payload bytes that the operation takes.
    pub open spec fn min_payload(self) -> nat {
        match self {
            Instruction::CreateProfile => 128,
            Instruction::PurchasePolicy => 52,
            Instruction::FileClaim => 136,
            Instruction::ProcessClaim => 1,
            Instruction::MakePayment => 8,
        }
    }

    /// The operation that `opcode` stands for, if any.
    pub fn from_opcode(opcode: u8) -> (instruction: Option<Instruction>)
        ensures
            instruction == Self::of_opcode(opcode),
    {
        match opcode {
            0 => Some(Instruction::CreateProfile),
            1 => Some(Instruction::PurchasePolicy),
            2 => Some(Instruction::FileClaim),
            3 => Some(Instruction::ProcessClaim),
            4 => Some(Instruction::MakePayment),
            _ => None,
        }
    }

    /// The least number of payload bytes that the operation takes.
    pub fn min_payload_len(&self) -> (len: usize)
        ensures
            len == self.min_payload(),
    {
        match self {
            Instruction::CreateProfile => 128,
            Instruction::PurchasePolicy => 52,
            Instruction::FileClaim => 136,
            Instruction::ProcessClaim => 1,
            Instruction::MakePayment => 8,
        }
    }
}

/// What an instruction does: the accounts as it leaves them, or the reason
/// why it leaves them as they were.
pub type Effect = Result<Seq<AccountView>, ProgramError>;

/// Whether a call that returned `result` and turned the accounts `before`
/// into the accounts `after` has done what `effect` says.
pub open spec fn carried_out(
    result: Result<(), ProgramError>,
    before: Seq<AccountView>,
    after: Seq<AccountView>,
    effect: Effect,
) -> bool {
    match result {
        Ok(_) => effect == Ok::<Seq<AccountView>, ProgramError>(after),
        Err(error) => effect == Err::<Seq<AccountView>, ProgramError>(error) && after == before,
    }
}

/// Opcode 0. Accounts: payer (signs), profile, system. Payload: name in 64
/// bytes, e-mail address in 64 bytes. The profile account gets an active
/// profile in place of whatever it held.
pub open spec fn create_profile_effect(
    program_id: Seq<u8>,
    accounts: Seq<AccountView>,
    payload: Seq<u8>,
) -> Effect {
    if payload.len() < 128 {
        Err(ProgramError::InvalidInstructionData)
    } else {
        match signer_check(accounts, 3) {
            Err(error) => Err(error),
            Ok(_) => match storage_check(accounts[1], program_id, PROFILE_LEN as nat) {
                Err(error) => Err(error),
                Ok(_) => {
                    let profile = created_profile(
                        slot_text(payload.subrange(0, 64)),
                        slot_text(payload.subrange(64, 128)),
                    );
                    if !profile.wf() {
                        Err(ProgramError::InvalidInstructionData)
                    } else {
                        Ok(stored(accounts, 1, profile_bytes(profile)))
                    }
                },
            },
        }
    }
}

/// Opcode 1. Accounts: payer (signs; holds the holder's ledger), policy,
/// system. Payload: product identifier in 32 bytes, coverage and premium
/// as binary64, duration in months as four bytes. The policy account gets
/// the new policy, the payer's ledger counts one more.
pub open spec fn purchase_policy_effect(
    program_id: Seq<u8>,
    accounts: Seq<AccountView>,
    payload: Seq<u8>,
    now: u64,
) -> Effect {
    if payload.len() < 52 {
        Err(ProgramError::InvalidInstructionData)
    } else {
        match signer_check(accounts, 3) {
            Err(error) => Err(error),
            Ok(_) => match storage_check(accounts[0], program_id, LEDGER_LEN as nat) {
                Err(error) => Err(error),
                Ok(_) => match storage_check(accounts[1], program_id, POLICY_LEN as nat) {
                    Err(error) => Err(error),
                    Ok(_) => match ledger_of_bytes(accounts[0].data) {
                        Err(error) => Err(error),
                        Ok(ledger) => {
                            let product_id = slot_text(payload.subrange(0, 32));
                            if !text_fits(product_id, PRODUCT_ID_WIDTH as nat) {
                                Err(ProgramError::InvalidInstructionData)
                            } else {
                                match issued_next(ledger) {
                                    Err(error) => Err(error),
                                    Ok(issue) => match purchased_policy(
                                        product_id,
                                        pattern_at(payload, 32),
                                        pattern_at(payload, 40),
                                        u32_at(payload, 48),
                                        accounts[0].key,
                                        issue.0,
                                        now,
                                    ) {
                                        Err(error) => Err(error),
                                        Ok(policy) => Ok(
                                            stored(
                                                stored(accounts, 1, policy_bytes(policy)),
                                                0,
                                                ledger_bytes(issue.1),
                                            ),
                                        ),
                                    },
                                }
                            }
                        },
                    },
                },
            },
        }
    }
}

/// Opcode 2. Accounts: payer (signs; holds the holder's ledger), policy,
/// claim, system. Payload: amount as binary64, description in 128 bytes.
/// The payer must be the holder of the policy. The claim account gets the
/// new claim, pending; the payer's ledger counts one more.
pub open spec fn file_claim_effect(
    program_id: Seq<u8>,
    accounts: Seq<AccountView>,
    payload: Seq<u8>,
    now: u64,
) -> Effect {
    if payload.len() < 136 {
        Err(ProgramError::InvalidInstructionData)
    } else {
        match signer_check(accounts, 4) {
            Err(error) => Err(error),
            Ok(_) => match storage_check(accounts[0], program_id, LEDGER_LEN as nat) {
                Err(error) => Err(error),
                Ok(_) => match storage_check(accounts[1], program_id, POLICY_LEN as nat) {
                    Err(error) => Err(error),
                    Ok(_) => match storage_check(accounts[2], program_id, CLAIM_LEN as nat) {
                        Err(error) => Err(error),
                        Ok(_) => match ledger_of_bytes(accounts[0].data) {
                            Err(error) => Err(error),
                            Ok(ledger) => match policy_of_bytes(accounts[1].data) {
                                Err(error) => Err(error),
                                Ok(policy) => {
                                    let description = slot_text(payload.subrange(8, 136));
                                    if policy.holder != accounts[0].key {
                                        Err(ProgramError::AccountValidationFailure)
                                    } else if !text_fits(description, DESCRIPTION_WIDTH as nat) {
                                        Err(ProgramError::InvalidInstructionData)
                                    } else {
                                        match issued_next(ledger) {
                                            Err(error) => Err(error),
                                            Ok(issue) => match filed_claim(
                                                policy,
                                                pattern_at(payload, 0),
                                                description,
                                                issue.0,
                                                now,
                                            ) {
                                                Err(error) => Err(error),
                                                Ok(claim) => Ok(
                                                    stored(
                                                        stored(accounts, 2, claim_bytes(claim)),
                                                        0,
                                                        ledger_bytes(issue.1),
                                                    ),
                                                ),
                                            },
                                        }
                                    }
                                },
                            },
                        },
                    },
                },
            },
        }
    }
}

/// Opcode 3. Accounts: authority (signs), claim. Payload: one byte, other
/// than 0 to approve. The claim account gets the decided claim.
pub open spec fn process_claim_effect(
    program_id: Seq<u8>,
    accounts: Seq<AccountView>,
    payload: Seq<u8>,
) -> Effect {
    if payload.len() < 1 {
        Err(ProgramError::InvalidInstructionData)
    } else {
        match signer_check(accounts, 2) {
            Err(error) => Err(error),
            Ok(_) => match storage_check(accounts[1], program_id, CLAIM_LEN as nat) {
                Err(error) => Err(error),
                Ok(_) => match claim_of_bytes(accounts[1].data) {
                    Err(error) => Err(error),
                    Ok(claim) => match adjudicated_claim(claim, payload[0] != 0, accounts[0].key) {
                        Err(error) => Err(error),
                        Ok(decided) => Ok(stored(accounts, 1, claim_bytes(decided))),
                    },
                },
            },
        }
    }
}

/// Opcode 4. Accounts: payer (signs), policy, system. Payload: amount as
/// binary64. The policy account gets the policy with the payment added.
pub open spec fn make_payment_effect(
    program_id: Seq<u8>,
    accounts: Seq<AccountView>,
    payload: Seq<u8>,
    now: u64,
) -> Effect {
    if payload.len() < 8 {
        Err(ProgramError::InvalidInstructionData)
    } else {
        match signer_check(accounts, 3) {
            Err(error) => Err(error),
            Ok(_) => match storage_check(accounts[1], program_id, POLICY_LEN as nat) {
                Err(error) => Err(error),
                Ok(_) => match policy_of_bytes(accounts[1].data) {
                    Err(error) => Err(error),
                    Ok(policy) => match applied_payment(policy, pattern_at(payload, 0), now) {
                        Err(error) => Err(error),
                        Ok(paid) => Ok(stored(accounts, 1, policy_bytes(paid))),
                    },
                },
            },
        }
    }
}

/// What the instruction `data` does to `accounts` at the time `now`. Without
/// an opcode, or with one that stands for no operation, it is invalid data.
pub open spec fn instruction_effect(
    program_id: Seq<u8>,
    accounts: Seq<AccountView>,
    data: Seq<u8>,
    now: u64,
) -> Effect {
    if data.len() == 0 {
        Err(ProgramError::InvalidInstructionData)
    } else {
        let payload = data.subrange(1, data.len() as int);
        match Instruction::of_opcode(data[0]) {
            None => Err(ProgramError::InvalidInstructionData),
            Some(Instruction::CreateProfile) => create_profile_effect(
                program_id,
                accounts,
                payload,
            ),
            Some(Instruction::PurchasePolicy) => purchase_policy_effect(
                program_id,
                accounts,
                payload,
                now,
            ),
            Some(Instruction::FileClaim) => file_claim_effect(program_id, accounts, payload, now),
            Some(Instruction::ProcessClaim) => process_claim_effect(program_id, accounts, payload),
            Some(Instruction::MakePayment) => make_payment_effect(
                program_id,
                accounts,
                payload,
                now,
            ),
        }
    }
}

/// Processes one instruction at the time `now`. On success the accounts
/// hold what [`instruction_effect`] says; on failure they hold what they
/// held before.
pub fn process_instruction(
    program_id: &Pubkey,
    accounts: &mut Vec<AccountInfo>,
    instruction_data: &[u8],
    now: u64,
) -> (result: Result<(), ProgramError>)
    ensures
        carried_out(
            result,
            account_views(old(accounts)@),
            account_views(final(accounts)@),
            instruction_effect(program_id@, account_views(old(accounts)@), instruction_data@, now),
        ),
{
    if instruction_data.len() == 0 {
        return Err(ProgramError::InvalidInstructionData);
    }
    let payload: &[u8] = slice_subrange(instruction_data, 1, instruction_data.len());
    match Instruction::from_opcode(instruction_data[0]) {
        None => Err(ProgramError::InvalidInstructionData),
        Some(Instruction::CreateProfile) => process_create_profile(program_id, accounts, payload),
        Some(Instruction::PurchasePolicy) => process_purchase_policy(
            program_id,
            accounts,
            payload,
            now,
        ),
        Some(Instruction::FileClaim) => process_file_claim(program_id, accounts, payload, now),
        Some(Instruction::ProcessClaim) => process_process_claim(program_id, accounts, payload),
        Some(Instruction::MakePayment) => process_make_payment(program_id, accounts, payload, now),
    }
}

/// Creates the profile that the payload names.
pub fn process_create_profile(
    program_id: &Pubkey,
    accounts: &mut Vec<AccountInfo>,
    data: &[u8],
) -> (result: Result<(), ProgramError>)
    ensures
        carried_out(
            result,
            account_views(old(accounts)@),
            account_views(final(accounts)@),
            create_profile_effect(program_id@, account_views(old(accounts)@), data@),
        ),
{
    if data.len() < 128 {
        return Err(ProgramError::InvalidInstructionData);
    }
    check_signer(accounts, 3)?;
    check_storage(&accounts[1], program_id, PROFILE_LEN)?;
    let name: String = read_text(data, 0, NAME_WIDTH);
    let email: String = read_text(data, 64, EMAIL_WIDTH);
    if !fits_slot(name.as_str(), NAME_WIDTH) || !fits_slot(email.as_str(), EMAIL_WIDTH) {
        return Err(ProgramError::InvalidInstructionData);
    }
    let profile: UserProfile = create_profile(name, email);
    let record: Vec<u8> = encode_profile(&profile);
    store_record(accounts, 1, &record);
    Ok(())
}

/// Purchases the policy that the payload describes, for the payer.
pub fn process_purchase_policy(
    program_id: &Pubkey,
    accounts: &mut Vec<AccountInfo>,
    data: &[u8],
    now: u64,
) -> (result: Result<(), ProgramError>)
    ensures
        carried_out(
            result,
            account_views(old(accounts)@),
            account_views(final(accounts)@),
            purchase_policy_effect(program_id@, account_views(old(accounts)@), data@, now),
        ),
{
    if data.len() < 52 {
        return Err(ProgramError::InvalidInstructionData);
    }
    check_signer(accounts, 3)?;
    check_storage(&accounts[0], program_id, LEDGER_LEN)?;
    check_storage(&accounts[1], program_id, POLICY_LEN)?;
    let ledger: HolderLedger = decode_ledger(accounts[0].data.as_slice())?;
    let product_id: String = read_text(data, 0, PRODUCT_ID_WIDTH);
    if !fits_slot(product_id.as_str(), PRODUCT_ID_WIDTH) {
        return Err(ProgramError::InvalidInstructionData);
    }
    let coverage_bits: u64 = read_pattern(data, 32);
    let premium_bits: u64 = read_pattern(data, 40);
    let duration_months: u32 = read_count(data, 48);
    let holder: Pubkey = accounts[0].key;
    let (sequence, counted): (u32, HolderLedger) = issue_next(ledger)?;
    let policy: Policy = purchase_policy(
        product_id,
        coverage_bits,
        premium_bits,
        duration_months,
        holder,
        sequence,
        now,
    )?;
    let record: Vec<u8> = encode_policy(&policy);
    let count: Vec<u8> = encode_ledger(&counted);
    store_record(accounts, 1, &record);
    store_record(accounts, 0, &count);
    Ok(())
}

/// Files the claim that the payload describes, against the policy in the
/// second account.
pub fn process_file_claim(
    program_id: &Pubkey,
    accounts: &mut Vec<AccountInfo>,
    data: &[u8],
    now: u64,
) -> (result: Result<(), ProgramError>)
    ensures
        carried_out(
            result,
            account_views(old(accounts)@),
            account_views(final(accounts)@),
            file_claim_effect(program_id@, account_views(old(accounts)@), data@, now),
        ),
{
    if data.len() < 136 {
        return Err(ProgramError::InvalidInstructionData);
    }
    check_signer(accounts, 4)?;
    check_storage(&accounts[0], program_id, LEDGER_LEN)?;
    check_storage(&accounts[1], program_id, POLICY_LEN)?;
    check_storage(&accounts[2], program_id, CLAIM_LEN)?;
    let ledger: HolderLedger = decode_ledger(accounts[0].data.as_slice())?;
    let policy: Policy = decode_policy(accounts[1].data.as_slice())?;
    if !policy.holder.same_as(&accounts[0].key) {
        return Err(ProgramError::AccountValidationFailure);
    }
    let amount_bits: u64 = read_pattern(data, 0);
    let description: String = read_text(data, 8, DESCRIPTION_WIDTH);
    if !fits_slot(description.as_str(), DESCRIPTION_WIDTH) {
        return Err(ProgramError::InvalidInstructionData);
    }
    let (sequence, counted): (u32, HolderLedger) = issue_next(ledger)?;
    let claim: Claim = file_claim(&policy, amount_bits, description, sequence, now)?;
    let record: Vec<u8> = encode_claim(&claim);
    let count: Vec<u8> = encode_ledger(&counted);
    store_record(accounts, 2, &record);
    store_record(accounts, 0, &count);
    Ok(())
}

/// Decides the claim in the second account as the payload says.
pub fn process_process_claim(
    program_id: &Pubkey,
    accounts: &mut Vec<AccountInfo>,
    data: &[u8],
) -> (result: Result<(), ProgramError>)
    ensures
        carried_out(
            result,
            account_views(old(accounts)@),
            account_views(final(accounts)@),
            process_claim_effect(program_id@, account_views(old(accounts)@), data@),
        ),
{
    if data.len() < 1 {
        return Err(ProgramError::InvalidInstructionData);
    }
    check_signer(accounts, 2)?;
    check_storage(&accounts[1], program_id, CLAIM_LEN)?;
    let claim: Claim = decode_claim(accounts[1].data.as_slice())?;
    let approved: bool = data[0] != 0;
    let authority: Pubkey = accounts[0].key;
    let decided: Claim = adjudicate_claim(claim, approved, &authority)?;
    let record: Vec<u8> = encode_claim(&decided);
    store_record(accounts, 1, &record);
    Ok(())
}

/// Applies the payment that the payload names to the policy in the second
/// account.
pub fn process_make_payment(
    program_id: &Pubkey,
    accounts: &mut Vec<AccountInfo>,
    data: &[u8],
    now: u64,
) -> (result: Result<(), ProgramError>)
    ensures
        carried_out(
            result,
            account_views(old(accounts)@),
            account_views(final(accounts)@),
            make_payment_effect(program_id@, account_views(old(accounts)@), data@, now),
        ),
{
    if data.len() < 8 {
        return Err(ProgramError::InvalidInstructionData);
    }
    check_signer(accounts, 3)?;
    check_storage(&accounts[1], program_id, POLICY_LEN)?;
    let policy: Policy = decode_policy(accounts[1].data.as_slice())?;
    let amount_bits: u64 = read_pattern(data, 0);
    let paid: Policy = apply_payment(policy, amount_bits, now)?;
    let record: Vec<u8> = encode_policy(&paid);
    store_record(accounts, 1, &record);
    Ok(())
}

} // verus!
