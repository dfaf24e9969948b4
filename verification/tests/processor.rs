use bank_assurance::account::AccountInfo;
use bank_assurance::amount::Amount;
use bank_assurance::codec::claim::{decode_claim, CLAIM_LEN};
use bank_assurance::codec::ledger::{decode_ledger, LEDGER_LEN};
use bank_assurance::codec::policy::{decode_policy, encode_policy, POLICY_LEN};
use bank_assurance::codec::profile::{decode_profile, PROFILE_LEN};
use bank_assurance::error::ProgramError;
use bank_assurance::identity::{Pubkey, RecordId};
use bank_assurance::processor::{
    process_create_profile, process_file_claim, process_instruction, process_make_payment,
    process_process_claim, process_purchase_policy, Instruction,
};
use bank_assurance::records::{
    ClaimStatus, HolderLedger, UserProfile, SECONDS_PER_MONTH_APPROX,
};

const T: u64 = 1_700_000_000;

fn program() -> Pubkey {
    Pubkey { bytes: [0xAB; 32] }
}

fn stranger() -> Pubkey {
    Pubkey { bytes: [0xCD; 32] }
}

fn key(seed: u8) -> Pubkey {
    Pubkey { bytes: [seed; 32] }
}

fn account(seed: u8, owner: Pubkey, is_signer: bool, size: usize) -> AccountInfo {
    AccountInfo {
        key: key(seed),
        owner,
        is_signer,
        data: vec![0u8; size],
    }
}

fn system() -> AccountInfo {
    account(0, key(0), false, 0)
}

fn payer() -> AccountInfo {
    account(1, program(), true, LEDGER_LEN)
}

fn slot(text: &str, width: usize) -> Vec<u8> {
    let mut bytes = text.as_bytes().to_vec();
    bytes.resize(width, 0);
    bytes
}

fn create_profile_data(name: &str, email: &str) -> Vec<u8> {
    let mut data = vec![0u8];
    data.extend(slot(name, 64));
    data.extend(slot(email, 64));
    data
}

fn purchase_policy_data(product: &str, coverage: f64, premium: f64, months: u32) -> Vec<u8> {
    let mut data = vec![1u8];
    data.extend(slot(product, 32));
    data.extend(coverage.to_le_bytes());
    data.extend(premium.to_le_bytes());
    data.extend(months.to_le_bytes());
    data
}

fn file_claim_data(amount: f64, description: &str) -> Vec<u8> {
    let mut data = vec![2u8];
    data.extend(amount.to_le_bytes());
    data.extend(slot(description, 128));
    data
}

fn process_claim_data(approved: u8) -> Vec<u8> {
    vec![3u8, approved]
}

fn make_payment_data(amount: f64) -> Vec<u8> {
    let mut data = vec![4u8];
    data.extend(amount.to_le_bytes());
    data
}

fn profile_accounts() -> Vec<AccountInfo> {
    vec![
        account(1, stranger(), true, 0),
        account(2, program(), false, PROFILE_LEN),
        system(),
    ]
}

fn policy_accounts() -> Vec<AccountInfo> {
    vec![payer(), account(3, program(), false, POLICY_LEN), system()]
}

/// Payer with one identifier issued, the policy for product AUTO-01, an
/// empty claim account, system.
fn claim_accounts() -> Vec<AccountInfo> {
    let mut purchased = policy_accounts();
    process_instruction(
        &program(),
        &mut purchased,
        &purchase_policy_data("AUTO-01", 10000.0, 50.0, 12),
        T,
    )
    .unwrap();
    vec![
        purchased[0].clone(),
        purchased[1].clone(),
        account(4, program(), false, CLAIM_LEN),
        system(),
    ]
}

fn decision_accounts() -> Vec<AccountInfo> {
    let mut filed = claim_accounts();
    process_instruction(
        &program(),
        &mut filed,
        &file_claim_data(5000.0, "hail damage"),
        T + 10,
    )
    .unwrap();
    vec![account(9, stranger(), true, 0), filed[2].clone()]
}

fn payment_accounts() -> Vec<AccountInfo> {
    let purchased = claim_accounts();
    vec![
        account(8, stranger(), true, 0),
        purchased[1].clone(),
        system(),
    ]
}

fn valid_case(opcode: u8) -> (Vec<AccountInfo>, Vec<u8>) {
    match opcode {
        0 => (
            profile_accounts(),
            create_profile_data("Alice", "alice@example.com"),
        ),
        1 => (
            policy_accounts(),
            purchase_policy_data("AUTO-01", 10000.0, 50.0, 12),
        ),
        2 => (claim_accounts(), file_claim_data(5000.0, "hail damage")),
        3 => (decision_accounts(), process_claim_data(1)),
        4 => (payment_accounts(), make_payment_data(50.0)),
        _ => unreachable!(),
    }
}

fn assert_refused(
    mut accounts: Vec<AccountInfo>,
    data: &[u8],
    now: u64,
    expected: ProgramError,
) {
    let before = accounts.clone();
    assert_eq!(
        process_instruction(&program(), &mut accounts, data, now),
        Err(expected)
    );
    assert_eq!(accounts, before);
}

#[test]
fn test_create_profile() {
    let mut accounts = profile_accounts();
    let data = create_profile_data("Alice", "alice@example.com");
    assert_eq!(data.len(), 129);
    assert_eq!(
        process_instruction(&program(), &mut accounts, &data, T),
        Ok(())
    );
    let profile = decode_profile(&accounts[1].data).unwrap();
    assert_eq!(
        profile,
        UserProfile {
            name: String::from("Alice"),
            email: String::from("alice@example.com"),
            active: true,
        }
    );
    assert!(profile.active);
    assert_eq!(profile.name.len(), 5);
    assert_eq!(profile.email.len(), 17);
    assert_eq!(accounts[0], profile_accounts()[0]);
    assert_eq!(accounts[2], profile_accounts()[2]);
}

#[test]
fn create_profile_replaces_an_existing_profile() {
    let mut accounts = profile_accounts();
    process_instruction(
        &program(),
        &mut accounts,
        &create_profile_data("Alice Liddell", "alice@example.com"),
        T,
    )
    .unwrap();
    process_instruction(
        &program(),
        &mut accounts,
        &create_profile_data("Bob", "bob@example.org"),
        T + 1,
    )
    .unwrap();
    assert_eq!(
        decode_profile(&accounts[1].data),
        Ok(UserProfile {
            name: String::from("Bob"),
            email: String::from("bob@example.org"),
            active: true,
        })
    );
}

#[test]
fn create_profile_leaves_storage_behind_the_record_alone() {
    let mut accounts = profile_accounts();
    accounts[1].data = vec![0x5A; PROFILE_LEN + 6];
    process_instruction(
        &program(),
        &mut accounts,
        &create_profile_data("Alice", "alice@example.com"),
        T,
    )
    .unwrap();
    assert_eq!(accounts[1].data.len(), PROFILE_LEN + 6);
    assert_eq!(&accounts[1].data[PROFILE_LEN..], &[0x5A; 6][..]);
    assert_eq!(decode_profile(&accounts[1].data).unwrap().name, "Alice");
}

#[test]
fn create_profile_ignores_payload_behind_the_fields() {
    let mut accounts = profile_accounts();
    let mut data = create_profile_data("Alice", "alice@example.com");
    data.extend([1, 2, 3]);
    process_instruction(&program(), &mut accounts, &data, T).unwrap();
    assert_eq!(decode_profile(&accounts[1].data).unwrap().name, "Alice");
}

#[test]
fn create_profile_repairs_ill_formed_text() {
    let mut accounts = profile_accounts();
    let mut data = create_profile_data("Alice", "alice@example.com");
    data[1 + 5] = 0xFF;
    process_instruction(&program(), &mut accounts, &data, T).unwrap();
    assert_eq!(
        decode_profile(&accounts[1].data).unwrap().name,
        "Alice\u{FFFD}"
    );
}

#[test]
fn create_profile_rejects_text_that_no_repair_fits() {
    let mut data = create_profile_data("Alice", "alice@example.com");
    for byte in data[1..65].iter_mut() {
        *byte = 0xFF;
    }
    assert_refused(
        profile_accounts(),
        &data,
        T,
        ProgramError::InvalidInstructionData,
    );
}

#[test]
fn purchase_policy_stores_a_policy_that_runs_for_its_months() {
    let mut accounts = policy_accounts();
    let data = purchase_policy_data("AUTO-01", 10000.0, 50.0, 12);
    assert_eq!(data.len(), 53);
    assert_eq!(
        process_instruction(&program(), &mut accounts, &data, T),
        Ok(())
    );
    let policy = decode_policy(&accounts[1].data).unwrap();
    assert_eq!(policy.end_date, T + 12 * SECONDS_PER_MONTH_APPROX);
    assert_eq!(policy.end_date, T + 12 * 2_592_000);
    assert!(policy.active);
    assert_eq!(policy.start_date, T);
    assert_eq!(policy.product_id, "AUTO-01");
    assert_eq!(f64::from_bits(policy.coverage_amount.to_bits()), 10000.0);
    assert_eq!(f64::from_bits(policy.premium.to_bits()), 50.0);
    assert_eq!(policy.paid_amount, Amount::zero());
    assert_eq!(policy.holder, key(1));
    assert_eq!(policy.id, RecordId { holder: key(1), sequence: 0 });
    assert_eq!(
        decode_ledger(&accounts[0].data),
        Ok(HolderLedger { issued: 1 })
    );
}

#[test]
fn policies_of_one_holder_have_different_identifiers() {
    let mut first = policy_accounts();
    let data = purchase_policy_data("AUTO-01", 10000.0, 50.0, 12);
    process_instruction(&program(), &mut first, &data, T).unwrap();
    let mut second = vec![
        first[0].clone(),
        account(5, program(), false, POLICY_LEN),
        system(),
    ];
    process_instruction(&program(), &mut second, &data, T).unwrap();
    let one = decode_policy(&first[1].data).unwrap();
    let two = decode_policy(&second[1].data).unwrap();
    assert_eq!(one.id, RecordId { holder: key(1), sequence: 0 });
    assert_eq!(two.id, RecordId { holder: key(1), sequence: 1 });
    assert_ne!(one.id, two.id);
    assert_eq!(
        decode_ledger(&second[0].data),
        Ok(HolderLedger { issued: 2 })
    );
}

#[test]
fn purchase_policy_rejects_bad_amounts_and_durations() {
    assert_refused(
        policy_accounts(),
        &purchase_policy_data("AUTO-01", -10000.0, 50.0, 12),
        T,
        ProgramError::DomainInvariantViolation,
    );
    assert_refused(
        policy_accounts(),
        &purchase_policy_data("AUTO-01", 10000.0, -50.0, 12),
        T,
        ProgramError::DomainInvariantViolation,
    );
    assert_refused(
        policy_accounts(),
        &purchase_policy_data("AUTO-01", f64::NAN, 50.0, 12),
        T,
        ProgramError::InvalidInstructionData,
    );
    assert_refused(
        policy_accounts(),
        &purchase_policy_data("AUTO-01", 10000.0, 50.0, 0),
        T,
        ProgramError::DomainInvariantViolation,
    );
    assert_refused(
        policy_accounts(),
        &purchase_policy_data("AUTO-01", 10000.0, 50.0, 12),
        u64::MAX,
        ProgramError::DomainInvariantViolation,
    );
}

#[test]
fn purchase_policy_rejects_an_exhausted_ledger() {
    let mut accounts = policy_accounts();
    accounts[0].data = u32::MAX.to_le_bytes().to_vec();
    assert_refused(
        accounts,
        &purchase_policy_data("AUTO-01", 10000.0, 50.0, 12),
        T,
        ProgramError::DomainInvariantViolation,
    );
}

#[test]
fn purchase_policy_checks_the_payer_account_that_holds_the_ledger() {
    let mut foreign = policy_accounts();
    foreign[0].owner = stranger();
    assert_refused(
        foreign,
        &purchase_policy_data("AUTO-01", 10000.0, 50.0, 12),
        T,
        ProgramError::AccountValidationFailure,
    );
    let mut small = policy_accounts();
    small[0].data = vec![0u8; LEDGER_LEN - 1];
    assert_refused(
        small,
        &purchase_policy_data("AUTO-01", 10000.0, 50.0, 12),
        T,
        ProgramError::InvalidInstructionData,
    );
}

#[test]
fn file_claim_stores_a_pending_claim_within_coverage() {
    assert_refused(
        claim_accounts(),
        &file_claim_data(15000.0, "total loss"),
        T + 10,
        ProgramError::DomainInvariantViolation,
    );
    let mut accounts = claim_accounts();
    let data = file_claim_data(5000.0, "hail damage");
    assert_eq!(data.len(), 137);
    assert_eq!(
        process_instruction(&program(), &mut accounts, &data, T + 10),
        Ok(())
    );
    let claim = decode_claim(&accounts[2].data).unwrap();
    assert_eq!(claim.status, ClaimStatus::Pending);
    assert_eq!(f64::from_bits(claim.amount.to_bits()), 5000.0);
    assert_eq!(claim.description, "hail damage");
    assert_eq!(claim.timestamp, T + 10);
    assert_eq!(claim.policy_id, RecordId { holder: key(1), sequence: 0 });
    assert_eq!(claim.id, RecordId { holder: key(1), sequence: 1 });
    assert_eq!(
        decode_ledger(&accounts[0].data),
        Ok(HolderLedger { issued: 2 })
    );
    assert_eq!(accounts[1], claim_accounts()[1]);
}

#[test]
fn file_claim_takes_a_payload_of_exactly_the_least_length() {
    let mut accounts = claim_accounts();
    let mut data = file_claim_data(5000.0, &"d".repeat(128));
    assert_eq!(data.len() - 1, 136);
    assert_eq!(
        process_instruction(&program(), &mut accounts, &data, T + 10),
        Ok(())
    );
    assert_eq!(
        decode_claim(&accounts[2].data).unwrap().description,
        "d".repeat(128)
    );
    // A longer payload is taken too; what follows the fields is not read.
    let mut accounts = claim_accounts();
    data.extend([0xFF, 0xFF]);
    assert_eq!(
        process_instruction(&program(), &mut accounts, &data, T + 10),
        Ok(())
    );
    assert_eq!(
        decode_claim(&accounts[2].data).unwrap().description,
        "d".repeat(128)
    );
}

#[test]
fn file_claim_rejects_a_payer_who_is_not_the_holder() {
    let mut accounts = claim_accounts();
    accounts[0].key = key(77);
    assert_refused(
        accounts,
        &file_claim_data(5000.0, "hail damage"),
        T + 10,
        ProgramError::AccountValidationFailure,
    );
}

#[test]
fn file_claim_rejects_an_inactive_policy() {
    let mut accounts = claim_accounts();
    let mut policy = decode_policy(&accounts[1].data).unwrap();
    policy.active = false;
    accounts[1].data = encode_policy(&policy);
    assert_refused(
        accounts,
        &file_claim_data(5000.0, "hail damage"),
        T + 10,
        ProgramError::DomainInvariantViolation,
    );
}

#[test]
fn file_claim_rejects_a_policy_account_that_holds_no_policy() {
    let mut accounts = claim_accounts();
    accounts[1].data = vec![0u8; POLICY_LEN];
    assert_refused(
        accounts,
        &file_claim_data(5000.0, "hail damage"),
        T + 10,
        ProgramError::InvalidInstructionData,
    );
}

#[test]
fn process_claim_decides_once() {
    let mut accounts = decision_accounts();
    assert_eq!(
        process_instruction(&program(), &mut accounts, &process_claim_data(1), T + 20),
        Ok(())
    );
    let claim = decode_claim(&accounts[1].data).unwrap();
    assert_eq!(claim.status, ClaimStatus::Approved);
    assert_eq!(f64::from_bits(claim.amount.to_bits()), 5000.0);
    let decided = accounts.clone();
    assert_eq!(
        process_instruction(&program(), &mut accounts, &process_claim_data(1), T + 30),
        Err(ProgramError::DomainInvariantViolation)
    );
    assert_eq!(accounts, decided);
    assert_eq!(
        process_instruction(&program(), &mut accounts, &process_claim_data(0), T + 30),
        Err(ProgramError::DomainInvariantViolation)
    );
    assert_eq!(accounts, decided);
}

#[test]
fn process_claim_rejects_with_a_zero_flag_and_approves_with_any_other() {
    let mut accounts = decision_accounts();
    process_instruction(&program(), &mut accounts, &process_claim_data(0), T).unwrap();
    assert_eq!(
        decode_claim(&accounts[1].data).unwrap().status,
        ClaimStatus::Rejected
    );
    let mut accounts = decision_accounts();
    process_instruction(&program(), &mut accounts, &process_claim_data(200), T).unwrap();
    assert_eq!(
        decode_claim(&accounts[1].data).unwrap().status,
        ClaimStatus::Approved
    );
}

#[test]
fn process_claim_rejects_the_holder_as_authority() {
    let mut accounts = decision_accounts();
    accounts[0].key = key(1);
    assert_refused(
        accounts,
        &process_claim_data(1),
        T,
        ProgramError::MissingRequiredSignature,
    );
}

#[test]
fn make_payment_adds_to_what_is_paid() {
    assert_refused(
        payment_accounts(),
        &make_payment_data(-10.0),
        T + 40,
        ProgramError::DomainInvariantViolation,
    );
    let mut accounts = payment_accounts();
    let before = decode_policy(&accounts[1].data).unwrap();
    assert_eq!(
        process_instruction(&program(), &mut accounts, &make_payment_data(50.0), T + 40),
        Ok(())
    );
    let after = decode_policy(&accounts[1].data).unwrap();
    assert_eq!(
        f64::from_bits(after.paid_amount.to_bits()),
        f64::from_bits(before.paid_amount.to_bits()) + 50.0
    );
    assert_eq!(f64::from_bits(after.paid_amount.to_bits()), 50.0);
    assert_eq!(after.last_payment_date, T + 40);
    assert_eq!(after.id, before.id);
    assert_eq!(after.coverage_amount, before.coverage_amount);
    process_instruction(&program(), &mut accounts, &make_payment_data(50.0), T + 50).unwrap();
    let twice = decode_policy(&accounts[1].data).unwrap();
    assert_eq!(f64::from_bits(twice.paid_amount.to_bits()), 100.0);
}

#[test]
fn make_payment_rejects_zero_and_nan() {
    assert_refused(
        payment_accounts(),
        &make_payment_data(0.0),
        T,
        ProgramError::DomainInvariantViolation,
    );
    assert_refused(
        payment_accounts(),
        &make_payment_data(f64::NAN),
        T,
        ProgramError::InvalidInstructionData,
    );
}

#[test]
fn make_payment_rejects_an_inactive_policy() {
    let mut accounts = payment_accounts();
    let mut policy = decode_policy(&accounts[1].data).unwrap();
    policy.active = false;
    accounts[1].data = encode_policy(&policy);
    assert_refused(
        accounts,
        &make_payment_data(50.0),
        T,
        ProgramError::DomainInvariantViolation,
    );
}

#[test]
fn every_operation_succeeds_on_its_valid_case() {
    for opcode in 0u8..5 {
        let (mut accounts, data) = valid_case(opcode);
        assert_eq!(
            process_instruction(&program(), &mut accounts, &data, T + 60),
            Ok(()),
            "opcode {}",
            opcode
        );
    }
}

#[test]
fn short_payloads_are_invalid_data() {
    for opcode in 0u8..5 {
        let (accounts, data) = valid_case(opcode);
        let least = Instruction::from_opcode(opcode).unwrap().min_payload_len();
        for keep in [0, least / 2, least - 1] {
            assert_refused(
                accounts.clone(),
                &data[..1 + keep],
                T,
                ProgramError::InvalidInstructionData,
            );
            // Whatever the accounts are.
            assert_refused(
                Vec::new(),
                &data[..1 + keep],
                T,
                ProgramError::InvalidInstructionData,
            );
            let mut unsigned = accounts.clone();
            unsigned[0].is_signer = false;
            assert_refused(
                unsigned,
                &data[..1 + keep],
                T,
                ProgramError::InvalidInstructionData,
            );
        }
    }
}

#[test]
fn least_payload_lengths() {
    let lengths: Vec<usize> = (0u8..5)
        .map(|opcode| Instruction::from_opcode(opcode).unwrap().min_payload_len())
        .collect();
    assert_eq!(lengths, vec![128, 52, 136, 1, 8]);
}

#[test]
fn opcodes_name_the_operations() {
    assert_eq!(Instruction::from_opcode(0), Some(Instruction::CreateProfile));
    assert_eq!(Instruction::from_opcode(1), Some(Instruction::PurchasePolicy));
    assert_eq!(Instruction::from_opcode(2), Some(Instruction::FileClaim));
    assert_eq!(Instruction::from_opcode(3), Some(Instruction::ProcessClaim));
    assert_eq!(Instruction::from_opcode(4), Some(Instruction::MakePayment));
    assert_eq!(Instruction::from_opcode(5), None);
    assert_eq!(Instruction::from_opcode(255), None);
}

#[test]
fn missing_signature_is_refused_without_any_change() {
    for opcode in 0u8..5 {
        let (mut accounts, data) = valid_case(opcode);
        accounts[0].is_signer = false;
        assert_refused(
            accounts.clone(),
            &data,
            T,
            ProgramError::MissingRequiredSignature,
        );
        // Also where the other accounts are missing or unfit.
        assert_refused(
            vec![accounts[0].clone()],
            &data,
            T,
            ProgramError::MissingRequiredSignature,
        );
        let mut unfit = accounts.clone();
        unfit[1].owner = stranger();
        unfit[1].data = Vec::new();
        assert_refused(unfit, &data, T, ProgramError::MissingRequiredSignature);
    }
}

#[test]
fn missing_accounts_fail_validation() {
    for opcode in 0u8..5 {
        let (accounts, data) = valid_case(opcode);
        assert_refused(
            Vec::new(),
            &data,
            T,
            ProgramError::AccountValidationFailure,
        );
        let mut fewer = accounts.clone();
        fewer.pop();
        assert_refused(fewer, &data, T, ProgramError::AccountValidationFailure);
    }
}

#[test]
fn record_accounts_of_another_owner_fail_validation() {
    for opcode in 0u8..5 {
        let (mut accounts, data) = valid_case(opcode);
        let record = if opcode == 2 { 2 } else { 1 };
        accounts[record].owner = stranger();
        assert_refused(accounts, &data, T, ProgramError::AccountValidationFailure);
    }
}

#[test]
fn record_accounts_that_are_too_small_are_invalid_data() {
    for opcode in 0u8..5 {
        let (mut accounts, data) = valid_case(opcode);
        let record = if opcode == 2 { 2 } else { 1 };
        accounts[record].data.pop();
        assert_refused(accounts, &data, T, ProgramError::InvalidInstructionData);
    }
}

#[test]
fn unknown_opcodes_and_empty_instructions_are_invalid_data() {
    assert_refused(
        profile_accounts(),
        &[],
        T,
        ProgramError::InvalidInstructionData,
    );
    for opcode in [5u8, 6, 100, 255] {
        let mut data = create_profile_data("Alice", "alice@example.com");
        data[0] = opcode;
        assert_refused(
            profile_accounts(),
            &data,
            T,
            ProgramError::InvalidInstructionData,
        );
    }
}

#[test]
fn handlers_take_the_payload_without_the_opcode() {
    let mut accounts = profile_accounts();
    let data = create_profile_data("Alice", "alice@example.com");
    assert_eq!(
        process_create_profile(&program(), &mut accounts, &data[1..]),
        Ok(())
    );
    let mut accounts = policy_accounts();
    let data = purchase_policy_data("AUTO-01", 10000.0, 50.0, 12);
    assert_eq!(
        process_purchase_policy(&program(), &mut accounts, &data[1..], T),
        Ok(())
    );
    let mut accounts = claim_accounts();
    let data = file_claim_data(5000.0, "hail damage");
    assert_eq!(
        process_file_claim(&program(), &mut accounts, &data[1..], T),
        Ok(())
    );
    let mut accounts = decision_accounts();
    assert_eq!(
        process_process_claim(&program(), &mut accounts, &[1]),
        Ok(())
    );
    let mut accounts = payment_accounts();
    let data = make_payment_data(50.0);
    assert_eq!(
        process_make_payment(&program(), &mut accounts, &data[1..], T),
        Ok(())
    );
    assert_eq!(
        process_make_payment(&program(), &mut accounts, &data[1..8], T),
        Err(ProgramError::InvalidInstructionData)
    );
}

#[test]
fn error_names() {
    assert_eq!(
        ProgramError::InvalidInstructionData.name(),
        "InvalidInstructionData"
    );
    assert_eq!(
        ProgramError::MissingRequiredSignature.name(),
        "MissingRequiredSignature"
    );
    assert_eq!(
        ProgramError::AccountValidationFailure.name(),
        "AccountValidationFailure"
    );
    assert_eq!(
        ProgramError::DomainInvariantViolation.name(),
        "DomainInvariantViolation"
    );
}
