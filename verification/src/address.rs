//! Fixed-width byte addresses keying accounts and witnesses.

use vstd::prelude::*;

verus! {

/// Width in bytes of every well-formed address.
pub const ADDRESS_LEN: usize = 21;

/// A byte string is a well-formed address exactly when it has the protocol's
/// fixed width.
pub open spec fn spec_is_valid_address(a: Seq<u8>) -> bool {
    a.len() == ADDRESS_LEN
}

/// A parsed address: a byte identifier of exactly [`ADDRESS_LEN`] bytes.
pub struct Address {
    bytes: Vec<u8>,
}

impl View for Address {
    type V = Seq<u8>;

    closed spec fn view(&self) -> Seq<u8> {
        self.bytes@
    }
}

impl Address {
    /// Every constructed address is well formed.
    pub open spec fn wf(&self) -> bool {
        spec_is_valid_address(self@)
    }

    /// Parses an address from its byte form, rejecting malformed input.
    pub fn from_bytes(raw: &[u8]) -> (r: Option<Address>)
        ensures
            r is Some <==> spec_is_valid_address(raw@),
            r is Some ==> r.unwrap()@ == raw@ && r.unwrap().wf(),
    {
        if raw.len() == ADDRESS_LEN {
            Some(Address { bytes: copy_bytes_of_slice(raw) })
        } else {
            None
        }
    }

    /// The raw byte form.
    pub fn as_bytes(&self) -> (r: &[u8])
        ensures
            r@ == self@,
    {
        self.bytes.as_slice()
    }

    /// An owned copy of this address.
    pub fn duplicate(&self) -> (r: Address)
        ensures
            r@ == self@,
    {
        Address { bytes: copy_bytes_of_slice(self.bytes.as_slice()) }
    }
}

/// Byte-for-byte equality of two byte strings.
pub fn bytes_eq(a: &[u8], b: &[u8]) -> (r: bool)
    ensures
        r == (a@ == b@),
{
    if a.len() != b.len() {
        return false;
    }
    let mut i: usize = 0;
    while i < a.len()
        invariant
            a@.len() == b@.len(),
            0 <= i <= a@.len(),
            forall|j: int| 0 <= j < i ==> a@[j] == b@[j],
        decreases a@.len() - i,
    {
        if a[i] != b[i] {
            return false;
        }
        i += 1;
    }
    proof {
        assert(a@ =~= b@);
    }
    true
}

/// An owned copy of a byte slice.
pub fn copy_bytes_of_slice(src: &[u8]) -> (r: Vec<u8>)
    ensures
        r@ == src@,
{
    let mut out: Vec<u8> = Vec::new();
    let mut i: usize = 0;
    while i < src.len()
        invariant
            0 <= i <= src@.len(),
            out@ == src@.take(i as int),
        decreases src@.len() - i,
    {
        out.push(src[i]);
        proof {
            assert(out@ =~= src@.take(i + 1 as int));
        }
        i += 1;
    }
    proof {
        assert(src@.take(src@.len() as int) =~= src@);
    }
    out
}

/// An owned copy of a byte vector.
pub fn copy_bytes(src: &Vec<u8>) -> (r: Vec<u8>)
    ensures
        r@ == src@,
{
    copy_bytes_of_slice(src.as_slice())
}

} // verus!
