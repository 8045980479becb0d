//! Account identities: 32-byte addresses, compared only for equality.

use vstd::prelude::*;

verus! {

/// The number of bytes in an account identity.
pub const ID_LEN: usize = 32;

/// An account identity: the 32-byte address of an account on the host
/// ledger.  The program never looks inside an identity; it only compares
/// identities for equality and feeds them to the address derivation.
#[derive(Debug)]
pub struct AccountId {
    pub bytes: Vec<u8>,
}

impl View for AccountId {
    type V = Seq<u8>;

    open spec fn view(&self) -> Seq<u8> {
        self.bytes@
    }
}

impl AccountId {
    /// An identity is well formed when it holds exactly 32 bytes.
    pub open spec fn wf(&self) -> bool {
        self@.len() == ID_LEN
    }

    /// Builds an identity from its raw bytes.
    pub fn from_bytes(bytes: Vec<u8>) -> (r: AccountId)
        requires
            bytes@.len() == ID_LEN,
        ensures
            r@ == bytes@,
            r.wf(),
    {
        AccountId { bytes }
    }

    /// Equality of identities: true exactly when the two byte strings agree.
    pub fn same_id(&self, other: &AccountId) -> (r: bool)
        ensures
            r == (self@ == other@),
    {
        if self.bytes.len() != other.bytes.len() {
            assert(self@.len() != other@.len());
            return false;
        }
        let n = self.bytes.len();
        let mut i: usize = 0;
        while i < n
            invariant
                n == self@.len(),
                n == other@.len(),
                i <= n,
                forall|j: int| 0 <= j < i ==> self@[j] == other@[j],
            decreases n - i,
        {
            if self.bytes[i] != other.bytes[i] {
                assert(self@[i as int] != other@[i as int]);
                return false;
            }
            i += 1;
        }
        assert(self@ =~= other@);
        true
    }

    /// A verified copy of the identity, byte for byte.
    pub fn duplicate(&self) -> (r: AccountId)
        ensures
            r@ == self@,
    {
        let n = self.bytes.len();
        let mut out: Vec<u8> = Vec::new();
        let mut i: usize = 0;
        while i < n
            invariant
                n == self@.len(),
                i <= n,
                out@.len() == i,
                forall|j: int| 0 <= j < i ==> out@[j] == self@[j],
            decreases n - i,
        {
            out.push(self.bytes[i]);
            i += 1;
        }
        assert(out@ =~= self@);
        AccountId { bytes: out }
    }
}

} // verus!
