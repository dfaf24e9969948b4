//! The layout of a user's profile: name, e-mail address, active flag.

use crate::codec::field::{flag_at, flag_byte, flag_ok_at, push_flag, read_flag};
use crate::codec::text::{
    fits_slot,
    lemma_slot_round_trip,
    lemma_text_slot_len,
    push_text,
    read_text,
    slot_text,
    text_slot,
};
use crate::codec::overwritten;
use crate::error::ProgramError;
use crate::records::{UserProfile, UserProfileView, EMAIL_WIDTH, NAME_WIDTH};
use vstd::prelude::*;

verus! {

/// Bytes that a profile takes.
pub const PROFILE_LEN: usize = 129;

/// The bytes of a profile.
pub open spec fn profile_bytes(profile: UserProfileView) -> Seq<u8> {
    text_slot(profile.name, NAME_WIDTH as nat) + text_slot(profile.email, EMAIL_WIDTH as nat)
        + seq![flag_byte(profile.active)]
}

/// The profile that the fields at the start of `data` spell.
pub open spec fn profile_at(data: Seq<u8>) -> UserProfileView {
    UserProfileView {
        name: slot_text(data.subrange(0, 64)),
        email: slot_text(data.subrange(64, 128)),
        active: flag_at(data, 128),
    }
}

/// The profile stored at the start of `data`. There is none where `data` is
/// shorter than a profile, where the flag is no flag, or where a text, once
/// its ill-formed bytes are replaced, would not go back into its slot.
pub open spec fn profile_of_bytes(data: Seq<u8>) -> Result<UserProfileView, ProgramError> {
    if data.len() >= PROFILE_LEN && flag_ok_at(data, 128) && profile_at(data).wf() {
        Ok(profile_at(data))
    } else {
        Err(ProgramError::InvalidInstructionData)
    }
}

/// The bytes of a valid profile are as many as a profile takes.
pub proof fn lemma_profile_bytes_len(profile: UserProfileView)
    requires
        profile.wf(),
    ensures
        profile_bytes(profile).len() == PROFILE_LEN,
{
    lemma_text_slot_len(profile.name, NAME_WIDTH as nat);
    lemma_text_slot_len(profile.email, EMAIL_WIDTH as nat);
}

/// A valid profile written to the start of storage that has room for it is
/// read back from that storage, whatever the storage holds behind it.
pub proof fn lemma_profile_read_back(profile: UserProfileView, storage: Seq<u8>)
    requires
        profile.wf(),
        storage.len() >= PROFILE_LEN,
    ensures
        profile_of_bytes(overwritten(storage, profile_bytes(profile))) == Ok::<UserProfileView, ProgramError>(
            profile,
        ),
{
    let data = overwritten(storage, profile_bytes(profile));
    lemma_profile_bytes_len(profile);
    lemma_text_slot_len(profile.name, NAME_WIDTH as nat);
    lemma_text_slot_len(profile.email, EMAIL_WIDTH as nat);
    assert(data.subrange(0, 64) =~= text_slot(profile.name, NAME_WIDTH as nat));
    assert(data.subrange(64, 128) =~= text_slot(profile.email, EMAIL_WIDTH as nat));
    lemma_slot_round_trip(profile.name, NAME_WIDTH as nat);
    lemma_slot_round_trip(profile.email, EMAIL_WIDTH as nat);
    assert(data[128] == flag_byte(profile.active));
}

/// A valid profile is read back from its bytes.
pub proof fn lemma_profile_round_trip(profile: UserProfileView)
    requires
        profile.wf(),
    ensures
        profile_bytes(profile).len() == PROFILE_LEN,
        profile_of_bytes(profile_bytes(profile)) == Ok::<UserProfileView, ProgramError>(profile),
{
    let bytes = profile_bytes(profile);
    lemma_profile_bytes_len(profile);
    lemma_profile_read_back(profile, bytes);
    assert(overwritten(bytes, bytes) =~= bytes);
}

/// Lays a profile out in bytes.
pub fn encode_profile(profile: &UserProfile) -> (bytes: Vec<u8>)
    requires
        profile@.wf(),
    ensures
        bytes@ == profile_bytes(profile@),
        bytes@.len() == PROFILE_LEN,
{
    let mut out: Vec<u8> = Vec::new();
    push_text(&mut out, profile.name.as_str(), NAME_WIDTH);
    push_text(&mut out, profile.email.as_str(), EMAIL_WIDTH);
    push_flag(&mut out, profile.active);
    proof {
        lemma_profile_bytes_len(profile@);
        assert(out@ =~= profile_bytes(profile@));
    }
    out
}

/// Reads the profile stored at the start of `data`.
pub fn decode_profile(data: &[u8]) -> (decoded: Result<UserProfile, ProgramError>)
    ensures
        match decoded {
            Ok(profile) => profile_of_bytes(data@) == Ok::<UserProfileView, ProgramError>(
                profile@,
            ) && profile@.wf(),
            Err(error) => profile_of_bytes(data@) == Err::<UserProfileView, ProgramError>(error),
        },
{
    if data.len() < PROFILE_LEN {
        return Err(ProgramError::InvalidInstructionData);
    }
    let name: String = read_text(data, 0, NAME_WIDTH);
    let email: String = read_text(data, NAME_WIDTH, EMAIL_WIDTH);
    let active: bool = read_flag(data, 128)?;
    if !fits_slot(name.as_str(), NAME_WIDTH) || !fits_slot(email.as_str(), EMAIL_WIDTH) {
        return Err(ProgramError::InvalidInstructionData);
    }
    Ok(UserProfile { name, email, active })
}

} // verus!
