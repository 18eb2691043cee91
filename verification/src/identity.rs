use vstd::prelude::*;

verus! {

/// The longest byte form an actor identifier may take.
pub const MAX_IDENTITY_LEN: usize = 29;

/// An opaque actor reference (the "caller" or "user"), carried as the raw
/// bytes of its principal identifier. Two identities are the same exactly
/// when their byte sequences are equal.
#[derive(Debug)]
pub struct Identity {
    pub bytes: Vec<u8>,
}

impl View for Identity {
    type V = Seq<u8>;

    open spec fn view(&self) -> Seq<u8> {
        self.bytes@
    }
}

impl Identity {
    /// An identity is well formed when its byte form fits a principal.
    pub open spec fn wf(self) -> bool {
        self.bytes@.len() <= MAX_IDENTITY_LEN
    }

    pub fn new(bytes: Vec<u8>) -> (r: Identity)
        requires
            bytes@.len() <= MAX_IDENTITY_LEN,
        ensures
            r@ == bytes@,
            r.wf(),
    {
        Identity { bytes }
    }

    /// A fresh identity with the same byte sequence.
    pub fn duplicate(&self) -> (r: Identity)
        ensures
            r@ == self@,
            r.wf() == self.wf(),
    {
        Identity { bytes: copy_bytes(&self.bytes) }
    }

    /// Whether two identities refer to the same actor.
    pub fn same_as(&self, other: &Identity) -> (r: bool)
        ensures
            r == (self@ == other@),
    {
        bytes_eq(&self.bytes, &other.bytes)
    }
}

/// Byte-for-byte equality of two byte vectors.
pub fn bytes_eq(a: &Vec<u8>, b: &Vec<u8>) -> (r: bool)
    ensures
        r == (a@ == b@),
{
    if a.len() != b.len() {
        return false;
    }
    let mut i: usize = 0;
    while i < a.len()
        invariant
            a@.len() == b@.len(),
            i <= a@.len(),
            forall|k: int| 0 <= k < i ==> a@[k] == b@[k],
        decreases a@.len() - i,
    {
        if a[i] != b[i] {
            return false;
        }
        i = i + 1;
    }
    proof {
        assert(a@ =~= b@);
    }
    true
}

/// A fresh byte vector holding the same bytes.
pub fn copy_bytes(a: &Vec<u8>) -> (r: Vec<u8>)
    ensures
        r@ == a@,
{
    let mut r: Vec<u8> = Vec::new();
    let mut i: usize = 0;
    while i < a.len()
        invariant
            i <= a@.len(),
            r@ == a@.take(i as int),
        decreases a@.len() - i,
    {
        r.push(a[i]);
        proof {
            assert(a@.take(i + 1 as int) =~= a@.take(i as int).push(a@[i as int]));
        }
        i = i + 1;
    }
    proof {
        assert(a@.take(a@.len() as int) =~= a@);
    }
    r
}

} // verus!
