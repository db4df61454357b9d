//! Identities: the fixed-width byte strings by which the host runtime names
//! record owners and callers. The module only ever reads an identity's bytes
//! and compares identities for equality.

use vstd::prelude::*;

verus! {

/// The width, in bytes, of every identity the host runtime hands out.
pub const IDENTITY_LEN: usize = 32;

/// The identity of a record owner or caller.
#[derive(Debug, PartialEq, Eq)]
pub struct Identity {
    bytes: Vec<u8>,
}

impl View for Identity {
    type V = Seq<u8>;

    closed spec fn view(&self) -> Seq<u8> {
        self.bytes@
    }
}

impl Identity {
    /// An identity is well formed when it has exactly `IDENTITY_LEN` bytes.
    pub open spec fn wf(&self) -> bool {
        self@.len() == IDENTITY_LEN
    }

    /// Wraps a byte string as an identity; refuses any length other than
    /// `IDENTITY_LEN`.
    pub fn new(bytes: Vec<u8>) -> (r: Option<Identity>)
        ensures
            bytes@.len() == IDENTITY_LEN ==> (r matches Some(id) && id@ == bytes@ && id.wf()),
            bytes@.len() != IDENTITY_LEN ==> r is None,
    {
        if bytes.len() == IDENTITY_LEN {
            Some(Identity { bytes })
        } else {
            None
        }
    }

    /// The identity's bytes, as the addressing scheme consumes them.
    pub fn as_bytes(&self) -> (r: &Vec<u8>)
        ensures
            r@ == self@,
    {
        &self.bytes
    }

    /// Byte-for-byte equality of two identities.
    pub fn same_as(&self, other: &Identity) -> (r: bool)
        ensures
            r == (self@ == other@),
    {
        if self.bytes.len() != other.bytes.len() {
            assert(self@ != other@);
            return false;
        }
        let n = self.bytes.len();
        let mut i: usize = 0;
        while i < n
            invariant
                i <= n,
                n == self@.len(),
                n == other@.len(),
                forall|k: int| 0 <= k < i ==> self@[k] == other@[k],
            decreases n - i,
        {
            if self.bytes[i] != other.bytes[i] {
                assert(self@[i as int] != other@[i as int]);
                return false;
            }
            i += 1;
        }
        assert(self@ =~= other@);
        true
    }

    /// A fresh identity with the same bytes.
    pub fn duplicate(&self) -> (r: Identity)
        ensures
            r@ == self@,
    {
        let mut bytes: Vec<u8> = Vec::new();
        let n = self.bytes.len();
        let mut i: usize = 0;
        while i < n
            invariant
                i <= n,
                n == self@.len(),
                bytes@ == self@.subrange(0, i as int),
            decreases n - i,
        {
            bytes.push(self.bytes[i]);
            assert(bytes@ =~= self@.subrange(0, i + 1));
            i += 1;
        }
        assert(bytes@ =~= self@);
        Identity { bytes }
    }
}

} // verus!
