//! Account identities and the identifiers derived from them.

use vstd::prelude::*;

verus! {

/// The number of bytes in an account identity.
pub const KEY_LEN: usize = 32;

/// The identity of an account.
#[derive(Clone, Copy, Debug, PartialEq, Eq)]
pub struct Pubkey {
    pub bytes: [u8; 32],
}

impl View for Pubkey {
    type V = Seq<u8>;

    open spec fn view(&self) -> Seq<u8> {
        self.bytes@
    }
}

impl Pubkey {
    /// Whether two identities are the same.
    pub fn same_as(&self, other: &Pubkey) -> (same: bool)
        ensures
            same == (self@ == other@),
    {
        let mut i: usize = 0;
        while i < KEY_LEN
            invariant
                i <= KEY_LEN,
                forall|j: int| 0 <= j < i ==> self@[j] == other@[j],
            decreases KEY_LEN - i,
        {
            if self.bytes[i] != other.bytes[i] {
                return false;
            }
            i += 1;
        }
        assert(self@ =~= other@);
        true
    }

    /// Reads the identity stored at `offset`.
    pub fn read(data: &[u8], offset: usize) -> (key: Pubkey)
        requires
            offset + KEY_LEN <= data@.len(),
        ensures
            key@ == data@.subrange(offset as int, offset + KEY_LEN),
    {
        let total: usize = data.len();
        let mut bytes: [u8; 32] = [0u8; 32];
        let mut i: usize = 0;
        while i < KEY_LEN
            invariant
                i <= KEY_LEN,
                offset + KEY_LEN <= data@.len() == total,
                forall|j: int| 0 <= j < i ==> bytes@[j] == data@[offset + j],
            decreases KEY_LEN - i,
        {
            bytes[i] = data[offset + i];
            i += 1;
        }
        assert(bytes@ =~= data@.subrange(offset as int, offset + KEY_LEN));
        Pubkey { bytes }
    }

    /// Appends the identity's bytes.
    pub fn push_to(&self, out: &mut Vec<u8>)
        ensures
            final(out)@ == old(out)@ + self@,
    {
        let mut i: usize = 0;
        while i < KEY_LEN
            invariant
                i <= KEY_LEN,
                out@ == old(out)@ + self@.subrange(0, i as int),
            decreases KEY_LEN - i,
        {
            out.push(self.bytes[i]);
            i += 1;
            assert(out@ =~= old(out)@ + self@.subrange(0, i as int));
        }
        assert(self@.subrange(0, KEY_LEN as int) =~= self@);
    }
}

/// The identifier of a policy or a claim: the holder it was issued to and
/// the number it has among all identifiers issued to that holder.
#[derive(Clone, Copy, Debug, PartialEq, Eq)]
pub struct RecordId {
    pub holder: Pubkey,
    pub sequence: u32,
}

/// A [`RecordId`] as plain values.
pub struct RecordIdView {
    pub holder: Seq<u8>,
    pub sequence: u32,
}

impl View for RecordId {
    type V = RecordIdView;

    open spec fn view(&self) -> RecordIdView {
        RecordIdView { holder: self.holder@, sequence: self.sequence }
    }
}

} // verus!
