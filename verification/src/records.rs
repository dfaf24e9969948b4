//! The records the program keeps: profiles, policies, claims, payments, and
//! each holder's count of issued identifiers.

use crate::amount::Amount;
use crate::codec::text::text_fits;
use crate::identity::{Pubkey, RecordId, RecordIdView, KEY_LEN};
use vstd::prelude::*;

verus! {

/// Bytes that a profile's name may take.
pub const NAME_WIDTH: usize = 64;

/// Bytes that a profile's e-mail address may take.
pub const EMAIL_WIDTH: usize = 64;

/// Bytes that a policy's product identifier may take.
pub const PRODUCT_ID_WIDTH: usize = 32;

/// Bytes that a claim's description may take.
pub const DESCRIPTION_WIDTH: usize = 128;

/// The seconds that a month of a policy's duration counts for: 30 days.
pub const SECONDS_PER_MONTH_APPROX: u64 = 2_592_000;

/// A user's profile.
#[derive(Clone, Debug, PartialEq, Eq)]
pub struct UserProfile {
    pub name: String,
    pub email: String,
    pub active: bool,
}

/// A [`UserProfile`] as plain values.
pub struct UserProfileView {
    pub name: Seq<char>,
    pub email: Seq<char>,
    pub active: bool,
}

impl UserProfileView {
    /// Name and address fit their slots.
    pub open spec fn wf(self) -> bool {
        &&& text_fits(self.name, NAME_WIDTH as nat)
        &&& text_fits(self.email, EMAIL_WIDTH as nat)
    }
}

impl View for UserProfile {
    type V = UserProfileView;

    open spec fn view(&self) -> UserProfileView {
        UserProfileView { name: self.name@, email: self.email@, active: self.active }
    }
}

/// An insurance policy.
#[derive(Clone, Debug, PartialEq, Eq)]
pub struct Policy {
    pub id: RecordId,
    pub holder: Pubkey,
    pub product_id: String,
    pub coverage_amount: Amount,
    pub premium: Amount,
    /// The sum of all payments applied so far.
    pub paid_amount: Amount,
    pub start_date: u64,
    pub end_date: u64,
    /// When the last payment was applied; the start date before the first.
    pub last_payment_date: u64,
    pub active: bool,
}

/// A [`Policy`] as plain values.
pub struct PolicyView {
    pub id: RecordIdView,
    pub holder: Seq<u8>,
    pub product_id: Seq<char>,
    pub coverage_amount: Amount,
    pub premium: Amount,
    pub paid_amount: Amount,
    pub start_date: u64,
    pub end_date: u64,
    pub last_payment_date: u64,
    pub active: bool,
}

impl PolicyView {
    /// The identifier was issued to the holder, the product identifier fits
    /// its slot, the amounts are amounts, and the policy ends after it
    /// starts.
    pub open spec fn wf(self) -> bool {
        &&& self.holder.len() == KEY_LEN
        &&& self.id.holder == self.holder
        &&& text_fits(self.product_id, PRODUCT_ID_WIDTH as nat)
        &&& self.coverage_amount.wf()
        &&& self.premium.wf()
        &&& self.paid_amount.wf()
        &&& self.end_date > self.start_date
    }
}

impl View for Policy {
    type V = PolicyView;

    open spec fn view(&self) -> PolicyView {
        PolicyView {
            id: self.id@,
            holder: self.holder@,
            product_id: self.product_id@,
            coverage_amount: self.coverage_amount,
            premium: self.premium,
            paid_amount: self.paid_amount,
            start_date: self.start_date,
            end_date: self.end_date,
            last_payment_date: self.last_payment_date,
            active: self.active,
        }
    }
}

/// Where a claim stands. `Approved` and `Rejected` are final.
#[derive(Clone, Copy, Debug, PartialEq, Eq, Structural)]
pub enum ClaimStatus {
    Pending,
    Approved,
    Rejected,
}

/// A claim against a policy.
#[derive(Clone, Debug, PartialEq, Eq)]
pub struct Claim {
    pub id: RecordId,
    pub policy_id: RecordId,
    pub amount: Amount,
    pub description: String,
    pub timestamp: u64,
    pub status: ClaimStatus,
}

/// A [`Claim`] as plain values.
pub struct ClaimView {
    pub id: RecordIdView,
    pub policy_id: RecordIdView,
    pub amount: Amount,
    pub description: Seq<char>,
    pub timestamp: u64,
    pub status: ClaimStatus,
}

impl ClaimView {
    /// Both identifiers name a holder, the amount is an amount, and the
    /// description fits its slot.
    pub open spec fn wf(self) -> bool {
        &&& self.id.holder.len() == KEY_LEN
        &&& self.policy_id.holder.len() == KEY_LEN
        &&& self.amount.wf()
        &&& text_fits(self.description, DESCRIPTION_WIDTH as nat)
    }
}

impl View for Claim {
    type V = ClaimView;

    open spec fn view(&self) -> ClaimView {
        ClaimView {
            id: self.id@,
            policy_id: self.policy_id@,
            amount: self.amount,
            description: self.description@,
            timestamp: self.timestamp,
            status: self.status,
        }
    }
}

/// A premium payment towards a policy.
#[derive(Clone, Copy, Debug, PartialEq, Eq)]
pub struct Payment {
    pub amount: Amount,
    pub policy_id: RecordId,
    pub timestamp: u64,
}

/// A [`Payment`] as plain values.
pub struct PaymentView {
    pub amount: Amount,
    pub policy_id: RecordIdView,
    pub timestamp: u64,
}

impl PaymentView {
    /// The amount is an amount and more than nothing, and the identifier
    /// names a holder.
    pub open spec fn wf(self) -> bool {
        &&& self.amount.wf()
        &&& self.amount.value() > 0
        &&& self.policy_id.holder.len() == KEY_LEN
    }
}

impl View for Payment {
    type V = PaymentView;

    open spec fn view(&self) -> PaymentView {
        PaymentView {
            amount: self.amount,
            policy_id: self.policy_id@,
            timestamp: self.timestamp,
        }
    }
}

/// What a holder's own account keeps: how many identifiers were issued to
/// the holder. The next policy or claim of the holder gets this number, so
/// no two of them share an identifier.
#[derive(Clone, Copy, Debug, PartialEq, Eq, Structural)]
pub struct HolderLedger {
    pub issued: u32,
}

} // verus!
