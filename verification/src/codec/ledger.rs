//! The layout of a holder's ledger: the count of issued identifiers.

use crate::codec::field::{lemma_u32_at, read_count, u32_at};
use crate::codec::number::{le_bytes, lemma_le_bytes_len, push_u32};
use crate::codec::overwritten;
use crate::error::ProgramError;
use crate::records::HolderLedger;
use vstd::prelude::*;

verus! {

/// Bytes that a ledger takes.
pub const LEDGER_LEN: usize = 4;

/// The bytes of a ledger.
pub open spec fn ledger_bytes(ledger: HolderLedger) -> Seq<u8> {
    le_bytes(ledger.issued as nat, 4)
}

/// The ledger stored at the start of `data`; none where `data` is shorter
/// than a ledger. Storage that was never written, all zero, is the ledger of
/// a holder to whom nothing was issued yet.
pub open spec fn ledger_of_bytes(data: Seq<u8>) -> Result<HolderLedger, ProgramError> {
    if data.len() >= LEDGER_LEN {
        Ok(HolderLedger { issued: u32_at(data, 0) })
    } else {
        Err(ProgramError::InvalidInstructionData)
    }
}

/// A ledger written to the start of storage that has room for it is read
/// back from that storage, whatever the storage holds behind it.
pub proof fn lemma_ledger_read_back(ledger: HolderLedger, storage: Seq<u8>)
    requires
        storage.len() >= LEDGER_LEN,
    ensures
        ledger_bytes(ledger).len() == LEDGER_LEN,
        ledger_of_bytes(overwritten(storage, ledger_bytes(ledger))) == Ok::<
            HolderLedger,
            ProgramError,
        >(ledger),
{
    let data = overwritten(storage, ledger_bytes(ledger));
    lemma_le_bytes_len(ledger.issued as nat, 4);
    assert(data.subrange(0, 4) =~= ledger_bytes(ledger));
    lemma_u32_at(data, 0, ledger.issued);
}

/// A ledger is read back from its bytes.
pub proof fn lemma_ledger_round_trip(ledger: HolderLedger)
    ensures
        ledger_bytes(ledger).len() == LEDGER_LEN,
        ledger_of_bytes(ledger_bytes(ledger)) == Ok::<HolderLedger, ProgramError>(ledger),
{
    let bytes = ledger_bytes(ledger);
    lemma_le_bytes_len(ledger.issued as nat, 4);
    lemma_ledger_read_back(ledger, bytes);
    assert(overwritten(bytes, bytes) =~= bytes);
}

/// Lays a ledger out in bytes.
pub fn encode_ledger(ledger: &HolderLedger) -> (bytes: Vec<u8>)
    ensures
        bytes@ == ledger_bytes(*ledger),
        bytes@.len() == LEDGER_LEN,
{
    let mut out: Vec<u8> = Vec::new();
    push_u32(&mut out, ledger.issued);
    proof {
        lemma_ledger_round_trip(*ledger);
        assert(out@ =~= ledger_bytes(*ledger));
    }
    out
}

/// Reads the ledger stored at the start of `data`.
pub fn decode_ledger(data: &[u8]) -> (decoded: Result<HolderLedger, ProgramError>)
    ensures
        decoded == ledger_of_bytes(data@),
{
    if data.len() < LEDGER_LEN {
        return Err(ProgramError::InvalidInstructionData);
    }
    Ok(HolderLedger { issued: read_count(data, 0) })
}

} // verus!
