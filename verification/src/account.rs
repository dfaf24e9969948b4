//! The accounts an instruction is given, and what is checked of them before
//! any record is touched.

use crate::codec::overwritten;
use crate::error::ProgramError;
use crate::identity::Pubkey;
use vstd::prelude::*;

verus! {

/// An account as the runtime hands it over: who it is, which program owns
/// it, whether it signed the instruction, and its storage.
#[derive(Clone, Debug, PartialEq, Eq)]
pub struct AccountInfo {
    pub key: Pubkey,
    pub owner: Pubkey,
    pub is_signer: bool,
    pub data: Vec<u8>,
}

/// An [`AccountInfo`] as plain values.
pub struct AccountView {
    pub key: Seq<u8>,
    pub owner: Seq<u8>,
    pub is_signer: bool,
    pub data: Seq<u8>,
}

impl View for AccountInfo {
    type V = AccountView;

    open spec fn view(&self) -> AccountView {
        AccountView {
            key: self.key@,
            owner: self.owner@,
            is_signer: self.is_signer,
            data: self.data@,
        }
    }
}

/// The accounts of an instruction as plain values, in their order.
pub open spec fn account_views(accounts: Seq<AccountInfo>) -> Seq<AccountView> {
    Seq::new(accounts.len(), |i: int| accounts[i]@)
}

/// The accounts after `record` was written to the start of the storage of
/// the account at `index`.
pub open spec fn stored(accounts: Seq<AccountView>, index: int, record: Seq<u8>) -> Seq<
    AccountView,
> {
    accounts.update(
        index,
        AccountView { data: overwritten(accounts[index].data, record), ..accounts[index] },
    )
}

/// What the check of signature and number of accounts finds. The first
/// account is the one that must have signed; that is looked at as soon as
/// there is a first account, before the others are counted.
pub open spec fn signer_check(accounts: Seq<AccountView>, count: nat) -> Result<(), ProgramError> {
    if accounts.len() == 0 {
        Err(ProgramError::AccountValidationFailure)
    } else if !accounts[0].is_signer {
        Err(ProgramError::MissingRequiredSignature)
    } else if accounts.len() < count {
        Err(ProgramError::AccountValidationFailure)
    } else {
        Ok(())
    }
}

/// What the check of an account that holds a record finds: the program must
/// own it, and its storage must have room for the record.
pub open spec fn storage_check(account: AccountView, program_id: Seq<u8>, size: nat) -> Result<
    (),
    ProgramError,
> {
    if account.owner != program_id {
        Err(ProgramError::AccountValidationFailure)
    } else if account.data.len() < size {
        Err(ProgramError::InvalidInstructionData)
    } else {
        Ok(())
    }
}

/// Checks that the first account signed and that `count` accounts are there.
pub fn check_signer(accounts: &Vec<AccountInfo>, count: usize) -> (checked: Result<
    (),
    ProgramError,
>)
    ensures
        checked == signer_check(account_views(accounts@), count as nat),
{
    if accounts.len() == 0 {
        Err(ProgramError::AccountValidationFailure)
    } else if !accounts[0].is_signer {
        Err(ProgramError::MissingRequiredSignature)
    } else if accounts.len() < count {
        Err(ProgramError::AccountValidationFailure)
    } else {
        Ok(())
    }
}

/// Checks that `account` is owned by the program and can hold `size` bytes.
pub fn check_storage(account: &AccountInfo, program_id: &Pubkey, size: usize) -> (checked: Result<
    (),
    ProgramError,
>)
    ensures
        checked == storage_check(account@, program_id@, size as nat),
{
    if !account.owner.same_as(program_id) {
        Err(ProgramError::AccountValidationFailure)
    } else if account.data.len() < size {
        Err(ProgramError::InvalidInstructionData)
    } else {
        Ok(())
    }
}

/// Writes `record` to the start of the storage of the account at `index`.
/// The bytes behind the record, and all other accounts, stay as they are.
pub fn store_record(accounts: &mut Vec<AccountInfo>, index: usize, record: &Vec<u8>)
    requires
        index < old(accounts)@.len(),
        record@.len() <= old(accounts)@[index as int].data@.len(),
    ensures
        account_views(final(accounts)@) == stored(
            account_views(old(accounts)@),
            index as int,
            record@,
        ),
        final(accounts)@.len() == old(accounts)@.len(),
        forall|i: int|
            0 <= i < old(accounts)@.len() && i != index ==> final(accounts)@[i] == old(
                accounts,
            )@[i],
        final(accounts)@[index as int].data@.len() == old(accounts)@[index as int].data@.len(),
{
    let key: Pubkey = accounts[index].key;
    let owner: Pubkey = accounts[index].owner;
    let is_signer: bool = accounts[index].is_signer;
    let total: usize = accounts[index].data.len();
    let mut data: Vec<u8> = Vec::new();
    let mut i: usize = 0;
    while i < total
        invariant
            i <= total,
            index < accounts@.len(),
            total == accounts@[index as int].data@.len(),
            record@.len() <= total,
            data@ == overwritten(accounts@[index as int].data@, record@).subrange(0, i as int),
        decreases total - i,
    {
        let byte: u8 = if i < record.len() {
            record[i]
        } else {
            accounts[index].data[i]
        };
        data.push(byte);
        i += 1;
        assert(data@ =~= overwritten(accounts@[index as int].data@, record@).subrange(
            0,
            i as int,
        ));
    }
    assert(data@ =~= overwritten(accounts@[index as int].data@, record@));
    accounts.set(index, AccountInfo { key, owner, is_signer, data });
    assert(account_views(accounts@) =~= stored(
        account_views(old(accounts)@),
        index as int,
        record@,
    ));
}

} // verus!
