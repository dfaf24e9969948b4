//! What holds of every instruction and every record, proved from the
//! definitions that the contracts of the library are stated with.
//!
//! That each kind of record is read back from its bytes is proved beside
//! its layout, in the modules under [`crate::codec`].

use crate::account::AccountView;
use crate::amount::{
    lemma_magnitude_order,
    lemma_sum_is_no_less,
    lemma_sum_rounds,
    lemma_sum_with_nothing,
    rounds_to,
    Amount,
};
use crate::codec::claim::{claim_of_bytes, lemma_claim_bytes_len, lemma_claim_read_back};
use crate::codec::field::{pattern_at, u32_at};
use crate::codec::ledger::{ledger_of_bytes, lemma_ledger_read_back};
use crate::codec::policy::{lemma_policy_bytes_len, lemma_policy_read_back, policy_of_bytes};
use crate::codec::profile::{lemma_profile_bytes_len, lemma_profile_read_back, profile_of_bytes};
use crate::codec::text::{slot_text, text_fits};
use crate::domain::claim::{adjudicated_claim, filed_claim};
use crate::domain::ledger::issued_next;
use crate::domain::payment::{applied_payment, credited_policy, received_payment};
use crate::domain::profile::created_profile;
use crate::domain::policy::purchased_policy;
use crate::error::ProgramError;
use crate::identity::KEY_LEN;
use crate::processor::{
    create_profile_effect,
    file_claim_effect,
    instruction_effect,
    make_payment_effect,
    process_claim_effect,
    purchase_policy_effect,
    Instruction,
};
use crate::records::{
    ClaimStatus,
    ClaimView,
    HolderLedger,
    PaymentView,
    PolicyView,
    UserProfileView,
    PRODUCT_ID_WIDTH,
    SECONDS_PER_MONTH_APPROX,
};
use vstd::prelude::*;

verus! {

/// An instruction whose payload is shorter than its operation takes is
/// invalid data, whatever the accounts are.
pub proof fn lemma_short_payload_is_invalid(
    program_id: Seq<u8>,
    accounts: Seq<AccountView>,
    data: Seq<u8>,
    now: u64,
)
    requires
        data.len() >= 1,
        Instruction::of_opcode(data[0]) matches Some(instruction) && data.len() - 1
            < instruction.min_payload(),
    ensures
        instruction_effect(program_id, accounts, data, now) == Err::<
            Seq<AccountView>,
            ProgramError,
        >(ProgramError::InvalidInstructionData),
{
}

/// An instruction with a payload of sufficient length whose first account
/// has not signed is refused for the missing signature, whatever else the
/// accounts hold. As every refused instruction, it changes no account.
pub proof fn lemma_unsigned_is_refused(
    program_id: Seq<u8>,
    accounts: Seq<AccountView>,
    data: Seq<u8>,
    now: u64,
)
    requires
        data.len() >= 1,
        Instruction::of_opcode(data[0]) matches Some(instruction) && data.len() - 1
            >= instruction.min_payload(),
        accounts.len() >= 1,
        !accounts[0].is_signer,
    ensures
        instruction_effect(program_id, accounts, data, now) == Err::<
            Seq<AccountView>,
            ProgramError,
        >(ProgramError::MissingRequiredSignature),
{
}

/// A claim for more than the policy covers is refused. A claim for no more
/// than that against an active policy is filed, pending, for its amount.
pub proof fn lemma_claim_within_coverage(
    policy: PolicyView,
    amount: Amount,
    description: Seq<char>,
    sequence: u32,
    now: u64,
)
    requires
        amount.wf(),
    ensures
        amount.value() > policy.coverage_amount.value() ==> filed_claim(
            policy,
            amount.bits,
            description,
            sequence,
            now,
        ) == Err::<ClaimView, ProgramError>(ProgramError::DomainInvariantViolation),
        amount.value() <= policy.coverage_amount.value() && policy.active ==> (filed_claim(
            policy,
            amount.bits,
            description,
            sequence,
            now,
        ) matches Ok(claim) && claim.status == ClaimStatus::Pending && claim.amount == amount
            && claim.policy_id == policy.id),
{
}

/// A claim that is approved or rejected admits no decision, whoever asks
/// for it.
pub proof fn lemma_decided_claim_is_final(claim: ClaimView, approved: bool, authority: Seq<u8>)
    requires
        claim.status != ClaimStatus::Pending,
    ensures
        adjudicated_claim(claim, approved, authority) == Err::<ClaimView, ProgramError>(
            ProgramError::DomainInvariantViolation,
        ),
{
}

/// A decision leaves a claim approved or rejected as asked, and otherwise
/// as it was; a second decision on it is refused.
pub proof fn lemma_claim_is_decided_once(
    claim: ClaimView,
    approved: bool,
    authority: Seq<u8>,
    again: bool,
    other: Seq<u8>,
)
    requires
        adjudicated_claim(claim, approved, authority) is Ok,
    ensures
        claim.status == ClaimStatus::Pending,
        adjudicated_claim(claim, approved, authority) matches Ok(decided) && decided.status == (
        if approved {
            ClaimStatus::Approved
        } else {
            ClaimStatus::Rejected
        }) && decided.amount == claim.amount && decided.id == claim.id && adjudicated_claim(
            decided,
            again,
            other,
        ) == Err::<ClaimView, ProgramError>(ProgramError::DomainInvariantViolation),
{
}

/// Two identifiers issued to one holder, one after the other, differ: the
/// second number is the first and one.
pub proof fn lemma_issued_numbers_differ(ledger: HolderLedger)
    requires
        issued_next(ledger) matches Ok(first) && issued_next(first.1) is Ok,
    ensures
        issued_next(ledger) matches Ok(first) && issued_next(first.1) matches Ok(second)
            && second.0 == first.0 + 1,
{
}

/// A purchased policy is active and unpaid, starts at the time of purchase
/// and ends thirty days later for each month of its duration; it is a valid
/// record where its product identifier fits.
pub proof fn lemma_purchased_policy_runs(
    product_id: Seq<char>,
    coverage_bits: u64,
    premium_bits: u64,
    duration_months: u32,
    holder: Seq<u8>,
    sequence: u32,
    now: u64,
)
    requires
        purchased_policy(
            product_id,
            coverage_bits,
            premium_bits,
            duration_months,
            holder,
            sequence,
            now,
        ) is Ok,
    ensures
        purchased_policy(
            product_id,
            coverage_bits,
            premium_bits,
            duration_months,
            holder,
            sequence,
            now,
        ) matches Ok(policy) && policy.active && policy.start_date == now && policy.end_date
            == now + duration_months * SECONDS_PER_MONTH_APPROX && policy.end_date
            > policy.start_date && policy.paid_amount.bits == 0 && policy.id.sequence == sequence
            && policy.id.holder == holder && (holder.len() == 32 && text_fits(
            product_id,
            PRODUCT_ID_WIDTH as nat,
        ) ==> policy.wf()),
{
}

/// A payment that is credited leaves a valid policy on which the binary64
/// sum of what was paid before and the payment is paid: the exact sum,
/// rounded to the nearest number, ties to even. That is never less than
/// before, and after the first payment it is the payment.
pub proof fn lemma_payment_adds(policy: PolicyView, payment: PaymentView)
    requires
        policy.wf(),
        payment.wf(),
        credited_policy(policy, payment) is Ok,
    ensures
        credited_policy(policy, payment) matches Ok(after) && after.wf() && rounds_to(
            policy.paid_amount.value() + payment.amount.value(),
            after.paid_amount.bits,
        ) && after.paid_amount.value() >= policy.paid_amount.value() && (policy.paid_amount.bits
            == 0 ==> after.paid_amount == payment.amount) && after.coverage_amount
            == policy.coverage_amount && after.id == policy.id && after.active == policy.active,
{
    let after = credited_policy(policy, payment)->Ok_0;
    lemma_sum_rounds(policy.paid_amount, payment.amount);
    lemma_sum_is_no_less(policy.paid_amount, payment.amount);
    lemma_magnitude_order(policy.paid_amount.bits, after.paid_amount.bits);
    if policy.paid_amount.bits == 0 {
        lemma_sum_with_nothing(payment.amount);
    }
}

/// After a profile was created, the profile account holds an active
/// profile with the name and the address of the payload, without their
/// padding.
pub proof fn lemma_created_profile_is_stored(
    program_id: Seq<u8>,
    accounts: Seq<AccountView>,
    payload: Seq<u8>,
)
    requires
        create_profile_effect(program_id, accounts, payload) is Ok,
    ensures
        create_profile_effect(program_id, accounts, payload) matches Ok(after) && profile_of_bytes(
            after[1].data,
        ) == Ok::<UserProfileView, ProgramError>(
            UserProfileView {
                name: slot_text(payload.subrange(0, 64)),
                email: slot_text(payload.subrange(64, 128)),
                active: true,
            },
        ),
{
    let profile = created_profile(
        slot_text(payload.subrange(0, 64)),
        slot_text(payload.subrange(64, 128)),
    );
    lemma_profile_read_back(profile, accounts[1].data);
}

/// After a policy was purchased, the policy account holds the policy that
/// the purchase gives for the payload, issued to the payer under the number
/// that the payer's ledger held, and the ledger holds one more.
pub proof fn lemma_purchased_policy_is_stored(
    program_id: Seq<u8>,
    accounts: Seq<AccountView>,
    payload: Seq<u8>,
    now: u64,
)
    requires
        purchase_policy_effect(program_id, accounts, payload, now) is Ok,
        accounts[0].key.len() == KEY_LEN,
    ensures
        purchase_policy_effect(program_id, accounts, payload, now) matches Ok(after)
            && ledger_of_bytes(accounts[0].data) matches Ok(ledger) && ledger_of_bytes(
            after[0].data,
        ) == Ok::<HolderLedger, ProgramError>(HolderLedger { issued: (ledger.issued + 1) as u32 })
            && policy_of_bytes(after[1].data) is Ok && policy_of_bytes(after[1].data)
            == purchased_policy(
            slot_text(payload.subrange(0, 32)),
            pattern_at(payload, 32),
            pattern_at(payload, 40),
            u32_at(payload, 48),
            accounts[0].key,
            ledger.issued,
            now,
        ),
{
    let ledger = ledger_of_bytes(accounts[0].data)->Ok_0;
    let issue = issued_next(ledger)->Ok_0;
    let policy = purchased_policy(
        slot_text(payload.subrange(0, 32)),
        pattern_at(payload, 32),
        pattern_at(payload, 40),
        u32_at(payload, 48),
        accounts[0].key,
        issue.0,
        now,
    )->Ok_0;
    lemma_policy_read_back(policy, accounts[1].data);
    lemma_ledger_read_back(issue.1, accounts[0].data);
}

/// After a claim was filed, the claim account holds the claim that filing
/// gives for the payload and the policy in the policy account, under the
/// number that the payer's ledger held; the ledger holds one more, and the
/// policy account is as it was.
pub proof fn lemma_filed_claim_is_stored(
    program_id: Seq<u8>,
    accounts: Seq<AccountView>,
    payload: Seq<u8>,
    now: u64,
)
    requires
        file_claim_effect(program_id, accounts, payload, now) is Ok,
    ensures
        file_claim_effect(program_id, accounts, payload, now) matches Ok(after) && ledger_of_bytes(
            accounts[0].data,
        ) matches Ok(ledger) && policy_of_bytes(accounts[1].data) matches Ok(policy)
            && policy.holder == accounts[0].key && ledger_of_bytes(after[0].data) == Ok::<
            HolderLedger,
            ProgramError,
        >(HolderLedger { issued: (ledger.issued + 1) as u32 }) && after[1] == accounts[1]
            && claim_of_bytes(after[2].data) is Ok && claim_of_bytes(after[2].data) == filed_claim(
            policy,
            pattern_at(payload, 0),
            slot_text(payload.subrange(8, 136)),
            ledger.issued,
            now,
        ),
{
    let ledger = ledger_of_bytes(accounts[0].data)->Ok_0;
    let policy = policy_of_bytes(accounts[1].data)->Ok_0;
    let issue = issued_next(ledger)->Ok_0;
    let claim = filed_claim(
        policy,
        pattern_at(payload, 0),
        slot_text(payload.subrange(8, 136)),
        issue.0,
        now,
    )->Ok_0;
    lemma_claim_read_back(claim, accounts[2].data);
    lemma_ledger_read_back(issue.1, accounts[0].data);
}

/// After a claim was decided, the claim account holds the claim with the
/// decision of the payload, made by the first account.
pub proof fn lemma_decided_claim_is_stored(
    program_id: Seq<u8>,
    accounts: Seq<AccountView>,
    payload: Seq<u8>,
)
    requires
        process_claim_effect(program_id, accounts, payload) is Ok,
    ensures
        process_claim_effect(program_id, accounts, payload) matches Ok(after) && claim_of_bytes(
            accounts[1].data,
        ) matches Ok(claim) && claim_of_bytes(after[1].data) is Ok && claim_of_bytes(
            after[1].data,
        ) == adjudicated_claim(claim, payload[0] != 0, accounts[0].key),
{
    let claim = claim_of_bytes(accounts[1].data)->Ok_0;
    let decided = adjudicated_claim(claim, payload[0] != 0, accounts[0].key)->Ok_0;
    lemma_claim_read_back(decided, accounts[1].data);
}

/// After a payment was made, the policy account holds the policy with the
/// payment of the payload applied.
pub proof fn lemma_paid_policy_is_stored(
    program_id: Seq<u8>,
    accounts: Seq<AccountView>,
    payload: Seq<u8>,
    now: u64,
)
    requires
        make_payment_effect(program_id, accounts, payload, now) is Ok,
    ensures
        make_payment_effect(program_id, accounts, payload, now) matches Ok(after)
            && policy_of_bytes(accounts[1].data) matches Ok(policy) && policy_of_bytes(
            after[1].data,
        ) is Ok && policy_of_bytes(after[1].data) == applied_payment(
            policy,
            pattern_at(payload, 0),
            now,
        ),
{
    let policy = policy_of_bytes(accounts[1].data)->Ok_0;
    let payment = received_payment(policy, pattern_at(payload, 0), now)->Ok_0;
    let paid = credited_policy(policy, payment)->Ok_0;
    lemma_payment_adds(policy, payment);
    lemma_policy_read_back(paid, accounts[1].data);
}

/// Whether two lists of accounts are the same accounts with storage of the
/// same size: nothing differs but what the storage holds.
pub open spec fn same_accounts(before: Seq<AccountView>, after: Seq<AccountView>) -> bool {
    &&& after.len() == before.len()
    &&& forall|i: int|
        0 <= i < before.len() ==> {
            &&& (#[trigger] after[i]).key == before[i].key
            &&& after[i].owner == before[i].owner
            &&& after[i].is_signer == before[i].is_signer
            &&& after[i].data.len() == before[i].data.len()
        }
}

/// An instruction changes nothing but what the storage of accounts holds:
/// no account comes or goes, none changes identity, owner or signature, and
/// no storage grows or shrinks.
pub proof fn lemma_instruction_keeps_accounts(
    program_id: Seq<u8>,
    accounts: Seq<AccountView>,
    data: Seq<u8>,
    now: u64,
)
    requires
        forall|i: int| 0 <= i < accounts.len() ==> (#[trigger] accounts[i]).key.len() == KEY_LEN,
        instruction_effect(program_id, accounts, data, now) is Ok,
    ensures
        instruction_effect(program_id, accounts, data, now) matches Ok(after) && same_accounts(
            accounts,
            after,
        ),
{
    let payload = data.subrange(1, data.len() as int);
    match Instruction::of_opcode(data[0]) {
        None => {},
        Some(Instruction::CreateProfile) => {
            let profile = created_profile(
                slot_text(payload.subrange(0, 64)),
                slot_text(payload.subrange(64, 128)),
            );
            lemma_profile_bytes_len(profile);
        },
        Some(Instruction::PurchasePolicy) => {
            let ledger = ledger_of_bytes(accounts[0].data)->Ok_0;
            let issue = issued_next(ledger)->Ok_0;
            let policy = purchased_policy(
                slot_text(payload.subrange(0, 32)),
                pattern_at(payload, 32),
                pattern_at(payload, 40),
                u32_at(payload, 48),
                accounts[0].key,
                issue.0,
                now,
            )->Ok_0;
            lemma_policy_bytes_len(policy);
            lemma_ledger_read_back(issue.1, accounts[0].data);
        },
        Some(Instruction::FileClaim) => {
            let ledger = ledger_of_bytes(accounts[0].data)->Ok_0;
            let policy = policy_of_bytes(accounts[1].data)->Ok_0;
            let issue = issued_next(ledger)->Ok_0;
            let claim = filed_claim(
                policy,
                pattern_at(payload, 0),
                slot_text(payload.subrange(8, 136)),
                issue.0,
                now,
            )->Ok_0;
            lemma_claim_bytes_len(claim);
            lemma_ledger_read_back(issue.1, accounts[0].data);
        },
        Some(Instruction::ProcessClaim) => {
            let claim = claim_of_bytes(accounts[1].data)->Ok_0;
            let decided = adjudicated_claim(claim, payload[0] != 0, accounts[0].key)->Ok_0;
            lemma_claim_bytes_len(decided);
        },
        Some(Instruction::MakePayment) => {
            let policy = policy_of_bytes(accounts[1].data)->Ok_0;
            let payment = received_payment(policy, pattern_at(payload, 0), now)->Ok_0;
            let paid = credited_policy(policy, payment)->Ok_0;
            lemma_payment_adds(policy, payment);
            lemma_policy_bytes_len(paid);
        },
    }
}

} // verus!
