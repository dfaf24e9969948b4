//! Profiles.

use crate::records::{UserProfile, UserProfileView};
use vstd::prelude::*;

verus! {

/// The profile that is created for a name and an e-mail address.
pub open spec fn created_profile(name: Seq<char>, email: Seq<char>) -> UserProfileView {
    UserProfileView { name, email, active: true }
}

/// Creates an active profile. Whatever profile the account held before is
/// replaced by it as a whole.
pub fn create_profile(name: String, email: String) -> (profile: UserProfile)
    ensures
        profile@ == created_profile(name@, email@),
{
    UserProfile { name, email, active: true }
}

} // verus!
