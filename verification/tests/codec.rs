use bank_assurance::amount::Amount;
use bank_assurance::codec::claim::{decode_claim, encode_claim, CLAIM_LEN};
use bank_assurance::codec::ledger::{decode_ledger, encode_ledger, LEDGER_LEN};
use bank_assurance::codec::number::{push_u32, push_u64, read_u32, read_u64};
use bank_assurance::codec::payment::{decode_payment, encode_payment, PAYMENT_LEN};
use bank_assurance::codec::policy::{decode_policy, encode_policy, POLICY_LEN};
use bank_assurance::codec::profile::{decode_profile, encode_profile, PROFILE_LEN};
use bank_assurance::codec::text::{fits_slot, push_text, read_text};
use bank_assurance::error::ProgramError;
use bank_assurance::identity::{Pubkey, RecordId};
use bank_assurance::records::{
    Claim, ClaimStatus, HolderLedger, Payment, Policy, UserProfile,
};

fn key(seed: u8) -> Pubkey {
    let mut bytes = [0u8; 32];
    for (i, byte) in bytes.iter_mut().enumerate() {
        *byte = seed.wrapping_add(i as u8);
    }
    Pubkey { bytes }
}

fn amount(value: f64) -> Amount {
    Amount::parse(value.to_bits()).unwrap()
}

fn sample_policy() -> Policy {
    Policy {
        id: RecordId { holder: key(7), sequence: 3 },
        holder: key(7),
        product_id: String::from("AUTO-01"),
        coverage_amount: amount(10000.0),
        premium: amount(50.0),
        paid_amount: amount(150.0),
        start_date: 1_700_000_000,
        end_date: 1_731_104_000,
        last_payment_date: 1_700_000_500,
        active: true,
    }
}

fn sample_claim() -> Claim {
    Claim {
        id: RecordId { holder: key(7), sequence: 4 },
        policy_id: RecordId { holder: key(7), sequence: 3 },
        amount: amount(5000.0),
        description: String::from("rear-end collision, Hauptstraße"),
        timestamp: 1_700_000_900,
        status: ClaimStatus::Pending,
    }
}

#[test]
fn numbers_are_little_endian() {
    let mut out = vec![0xAAu8];
    push_u32(&mut out, 0x0102_0304);
    push_u64(&mut out, 0x1122_3344_5566_7788);
    assert_eq!(
        out,
        vec![0xAA, 0x04, 0x03, 0x02, 0x01, 0x88, 0x77, 0x66, 0x55, 0x44, 0x33, 0x22, 0x11]
    );
    assert_eq!(read_u32(&out, 1), 0x0102_0304);
    assert_eq!(read_u64(&out, 5), 0x1122_3344_5566_7788);
}

#[test]
fn numbers_round_trip_at_their_limits() {
    for value in [0u32, 1, 255, 256, 12, u32::MAX] {
        let mut out = Vec::new();
        push_u32(&mut out, value);
        assert_eq!(out.len(), 4);
        assert_eq!(out, value.to_le_bytes().to_vec());
        assert_eq!(read_u32(&out, 0), value);
    }
    for value in [0u64, 1, 1 << 32, u64::MAX, 10000.0f64.to_bits()] {
        let mut out = Vec::new();
        push_u64(&mut out, value);
        assert_eq!(out, value.to_le_bytes().to_vec());
        assert_eq!(read_u64(&out, 0), value);
    }
}

#[test]
fn text_is_padded_with_nul() {
    let mut out = Vec::new();
    push_text(&mut out, "Alice", 8);
    assert_eq!(out, vec![b'A', b'l', b'i', b'c', b'e', 0, 0, 0]);
    assert_eq!(read_text(&out, 0, 8), "Alice");
}

#[test]
fn text_that_fills_its_slot_has_no_padding() {
    let mut out = Vec::new();
    push_text(&mut out, "12345678", 8);
    assert_eq!(out, b"12345678".to_vec());
    assert_eq!(read_text(&out, 0, 8), "12345678");
}

#[test]
fn text_reading_trims_only_trailing_nul() {
    let slot = [b'a', 0, b'b', 0, 0, 0];
    assert_eq!(read_text(&slot, 0, 6), "a\0b");
    assert_eq!(read_text(&slot, 1, 5), "\0b");
    assert_eq!(read_text(&slot, 3, 3), "");
}

#[test]
fn text_of_unwritten_storage_is_empty() {
    let slot = [0u8; 64];
    assert_eq!(read_text(&slot, 0, 64), "");
}

#[test]
fn text_with_ill_formed_bytes_is_repaired() {
    let slot = [b'o', b'k', 0xFF, b'!', 0, 0, 0, 0];
    assert_eq!(read_text(&slot, 0, 8), "ok\u{FFFD}!");
    let cut = [0xE2u8, 0x82, 0, 0];
    assert_eq!(read_text(&cut, 0, 4), "\u{FFFD}");
}

#[test]
fn text_with_many_bytes_per_char_round_trips() {
    let text = "Zoë 保険 €";
    let mut out = Vec::new();
    assert!(fits_slot(text, 32));
    push_text(&mut out, text, 32);
    assert_eq!(out.len(), 32);
    assert_eq!(read_text(&out, 0, 32), text);
}

#[test]
fn fits_slot_counts_bytes_and_refuses_trailing_nul() {
    assert!(fits_slot("", 0));
    assert!(fits_slot("Alice", 5));
    assert!(!fits_slot("Alice", 4));
    assert!(fits_slot("€", 3));
    assert!(!fits_slot("€", 2));
    assert!(!fits_slot("Alice\0", 64));
    assert!(fits_slot("\0Alice", 64));
}

#[test]
fn profile_layout() {
    let profile = UserProfile {
        name: String::from("Alice"),
        email: String::from("alice@example.com"),
        active: true,
    };
    let bytes = encode_profile(&profile);
    assert_eq!(bytes.len(), PROFILE_LEN);
    assert_eq!(PROFILE_LEN, 129);
    assert_eq!(&bytes[0..5], b"Alice");
    assert!(bytes[5..64].iter().all(|byte| *byte == 0));
    assert_eq!(&bytes[64..81], b"alice@example.com");
    assert!(bytes[81..128].iter().all(|byte| *byte == 0));
    assert_eq!(bytes[128], 1);
    assert_eq!(decode_profile(&bytes), Ok(profile));
}

#[test]
fn profile_round_trips() {
    for (name, email, active) in [
        ("", "", false),
        ("Bob", "bob@example.org", true),
        ("Zoë", "zoë@例え.jp", false),
    ] {
        let profile = UserProfile {
            name: String::from(name),
            email: String::from(email),
            active,
        };
        assert_eq!(decode_profile(&encode_profile(&profile)), Ok(profile));
    }
    let full = UserProfile {
        name: "n".repeat(64),
        email: "e".repeat(64),
        active: true,
    };
    assert_eq!(decode_profile(&encode_profile(&full)), Ok(full));
}

#[test]
fn profile_decoding_ignores_what_follows_the_record() {
    let profile = UserProfile {
        name: String::from("Carol"),
        email: String::from("carol@example.com"),
        active: true,
    };
    let mut bytes = encode_profile(&profile);
    bytes.extend_from_slice(&[9, 9, 9]);
    assert_eq!(decode_profile(&bytes), Ok(profile));
}

#[test]
fn profile_decoding_rejects_short_and_malformed_data() {
    let profile = UserProfile {
        name: String::from("Carol"),
        email: String::from("carol@example.com"),
        active: true,
    };
    let bytes = encode_profile(&profile);
    assert_eq!(
        decode_profile(&bytes[..128]),
        Err(ProgramError::InvalidInstructionData)
    );
    assert_eq!(decode_profile(&[]), Err(ProgramError::InvalidInstructionData));
    let mut bad_flag = bytes.clone();
    bad_flag[128] = 2;
    assert_eq!(decode_profile(&bad_flag), Err(ProgramError::InvalidInstructionData));
    // Sixty-four ill-formed bytes become sixty-four replacement characters,
    // which no slot of sixty-four bytes holds.
    let mut garbage = bytes.clone();
    for byte in garbage[0..64].iter_mut() {
        *byte = 0xFF;
    }
    assert_eq!(decode_profile(&garbage), Err(ProgramError::InvalidInstructionData));
}

#[test]
fn profile_of_unwritten_storage_is_empty_and_inactive() {
    let bytes = vec![0u8; PROFILE_LEN];
    assert_eq!(
        decode_profile(&bytes),
        Ok(UserProfile {
            name: String::new(),
            email: String::new(),
            active: false,
        })
    );
}

#[test]
fn policy_layout() {
    let policy = sample_policy();
    let bytes = encode_policy(&policy);
    assert_eq!(bytes.len(), POLICY_LEN);
    assert_eq!(POLICY_LEN, 117);
    assert_eq!(&bytes[0..32], &key(7).bytes[..]);
    assert_eq!(&bytes[32..36], &3u32.to_le_bytes()[..]);
    assert_eq!(&bytes[36..43], b"AUTO-01");
    assert!(bytes[43..68].iter().all(|byte| *byte == 0));
    assert_eq!(&bytes[68..76], &10000.0f64.to_le_bytes()[..]);
    assert_eq!(&bytes[76..84], &50.0f64.to_le_bytes()[..]);
    assert_eq!(&bytes[84..92], &150.0f64.to_le_bytes()[..]);
    assert_eq!(&bytes[92..100], &1_700_000_000u64.to_le_bytes()[..]);
    assert_eq!(&bytes[100..108], &1_731_104_000u64.to_le_bytes()[..]);
    assert_eq!(&bytes[108..116], &1_700_000_500u64.to_le_bytes()[..]);
    assert_eq!(bytes[116], 1);
}

#[test]
fn policy_round_trips() {
    let policy = sample_policy();
    assert_eq!(decode_policy(&encode_policy(&policy)), Ok(policy));
    let mut other = sample_policy();
    other.active = false;
    other.product_id = "p".repeat(32);
    other.paid_amount = Amount::zero();
    other.coverage_amount = amount(f64::MAX);
    other.start_date = 0;
    other.end_date = u64::MAX;
    assert_eq!(decode_policy(&encode_policy(&other)), Ok(other));
}

#[test]
fn policy_decoding_rejects_short_and_malformed_data() {
    let bytes = encode_policy(&sample_policy());
    assert_eq!(
        decode_policy(&bytes[..POLICY_LEN - 1]),
        Err(ProgramError::InvalidInstructionData)
    );
    let mut negative = bytes.clone();
    negative[68..76].copy_from_slice(&(-1.0f64).to_le_bytes());
    assert_eq!(decode_policy(&negative), Err(ProgramError::InvalidInstructionData));
    let mut nan = bytes.clone();
    nan[76..84].copy_from_slice(&f64::NAN.to_le_bytes());
    assert_eq!(decode_policy(&nan), Err(ProgramError::InvalidInstructionData));
    let mut infinite = bytes.clone();
    infinite[84..92].copy_from_slice(&f64::INFINITY.to_le_bytes());
    assert_eq!(decode_policy(&infinite), Err(ProgramError::InvalidInstructionData));
    let mut ends_early = bytes.clone();
    ends_early[100..108].copy_from_slice(&1_700_000_000u64.to_le_bytes());
    assert_eq!(decode_policy(&ends_early), Err(ProgramError::InvalidInstructionData));
    let mut bad_flag = bytes.clone();
    bad_flag[116] = 7;
    assert_eq!(decode_policy(&bad_flag), Err(ProgramError::InvalidInstructionData));
    assert_eq!(
        decode_policy(&vec![0u8; POLICY_LEN]),
        Err(ProgramError::InvalidInstructionData)
    );
}

#[test]
fn claim_layout() {
    let claim = sample_claim();
    let bytes = encode_claim(&claim);
    assert_eq!(bytes.len(), CLAIM_LEN);
    assert_eq!(CLAIM_LEN, 217);
    assert_eq!(&bytes[0..32], &key(7).bytes[..]);
    assert_eq!(&bytes[32..36], &4u32.to_le_bytes()[..]);
    assert_eq!(&bytes[36..68], &key(7).bytes[..]);
    assert_eq!(&bytes[68..72], &3u32.to_le_bytes()[..]);
    assert_eq!(&bytes[72..80], &5000.0f64.to_le_bytes()[..]);
    let text = "rear-end collision, Hauptstraße".as_bytes();
    assert_eq!(&bytes[80..80 + text.len()], text);
    assert!(bytes[80 + text.len()..208].iter().all(|byte| *byte == 0));
    assert_eq!(&bytes[208..216], &1_700_000_900u64.to_le_bytes()[..]);
    assert_eq!(bytes[216], 0);
}

#[test]
fn claim_round_trips_in_every_status() {
    for (status, byte) in [
        (ClaimStatus::Pending, 0u8),
        (ClaimStatus::Approved, 1),
        (ClaimStatus::Rejected, 2),
    ] {
        let mut claim = sample_claim();
        claim.status = status;
        let bytes = encode_claim(&claim);
        assert_eq!(bytes[216], byte);
        assert_eq!(decode_claim(&bytes), Ok(claim));
    }
}

#[test]
fn claim_decoding_rejects_short_and_malformed_data() {
    let bytes = encode_claim(&sample_claim());
    assert_eq!(
        decode_claim(&bytes[..CLAIM_LEN - 1]),
        Err(ProgramError::InvalidInstructionData)
    );
    let mut bad_status = bytes.clone();
    bad_status[216] = 3;
    assert_eq!(decode_claim(&bad_status), Err(ProgramError::InvalidInstructionData));
    let mut bad_amount = bytes.clone();
    bad_amount[72..80].copy_from_slice(&(-5.0f64).to_le_bytes());
    assert_eq!(decode_claim(&bad_amount), Err(ProgramError::InvalidInstructionData));
}

#[test]
fn payment_layout_and_round_trip() {
    let payment = Payment {
        amount: amount(50.0),
        policy_id: RecordId { holder: key(9), sequence: 12 },
        timestamp: 1_700_000_123,
    };
    let bytes = encode_payment(&payment);
    assert_eq!(bytes.len(), PAYMENT_LEN);
    assert_eq!(PAYMENT_LEN, 52);
    assert_eq!(&bytes[0..8], &50.0f64.to_le_bytes()[..]);
    assert_eq!(&bytes[8..40], &key(9).bytes[..]);
    assert_eq!(&bytes[40..44], &12u32.to_le_bytes()[..]);
    assert_eq!(&bytes[44..52], &1_700_000_123u64.to_le_bytes()[..]);
    assert_eq!(decode_payment(&bytes), Ok(payment));
}

#[test]
fn payment_decoding_rejects_short_data_and_amounts_that_are_not_positive() {
    let payment = Payment {
        amount: amount(50.0),
        policy_id: RecordId { holder: key(9), sequence: 12 },
        timestamp: 1,
    };
    let bytes = encode_payment(&payment);
    assert_eq!(
        decode_payment(&bytes[..51]),
        Err(ProgramError::InvalidInstructionData)
    );
    let mut nothing = bytes.clone();
    nothing[0..8].copy_from_slice(&0.0f64.to_le_bytes());
    assert_eq!(decode_payment(&nothing), Err(ProgramError::InvalidInstructionData));
    let mut negative = bytes.clone();
    negative[0..8].copy_from_slice(&(-10.0f64).to_le_bytes());
    assert_eq!(decode_payment(&negative), Err(ProgramError::InvalidInstructionData));
}

#[test]
fn ledger_layout_and_round_trip() {
    assert_eq!(LEDGER_LEN, 4);
    for issued in [0u32, 1, 77, u32::MAX] {
        let ledger = HolderLedger { issued };
        let bytes = encode_ledger(&ledger);
        assert_eq!(bytes, issued.to_le_bytes().to_vec());
        assert_eq!(decode_ledger(&bytes), Ok(ledger));
    }
    assert_eq!(
        decode_ledger(&[1, 2, 3]),
        Err(ProgramError::InvalidInstructionData)
    );
    assert_eq!(decode_ledger(&[5, 0, 0, 0, 9, 9]), Ok(HolderLedger { issued: 5 }));
}

#[test]
fn identity_reading_and_comparing() {
    let mut data = vec![0xEEu8; 3];
    key(40).push_to(&mut data);
    assert_eq!(data.len(), 35);
    assert_eq!(Pubkey::read(&data, 3), key(40));
    assert!(key(40).same_as(&key(40)));
    assert!(!key(40).same_as(&key(41)));
    let mut last_differs = key(40);
    last_differs.bytes[31] ^= 1;
    assert!(!key(40).same_as(&last_differs));
}
