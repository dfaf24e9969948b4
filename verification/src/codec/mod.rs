//! Fixed-width binary layout of the records.
//!
//! Each kind of record has a module with its layout: the bytes of a record,
//! the record that bytes hold, and the proof that the one undoes the other.

use vstd::prelude::*;

pub mod claim;
pub mod field;
pub mod ledger;
pub mod number;
pub mod payment;
pub mod policy;
pub mod profile;
pub mod text;

verus! {

/// `data` with its first bytes replaced by `record`.
pub open spec fn overwritten(data: Seq<u8>, record: Seq<u8>) -> Seq<u8> {
    record + data.subrange(record.len() as int, data.len() as int)
}

} // verus!
