use vstd::prelude::*;

verus! {

/// An authenticated actor (a user, an admin or a contract), identified by a
/// key that the host's signature check has already verified.
#[derive(Clone, Copy, PartialEq, Eq, Structural, Debug, Hash)]
pub struct Principal {
    pub id: u64,
}

impl View for Principal {
    type V = Principal;

    open spec fn view(&self) -> Principal {
        *self
    }
}

impl Principal {
    pub fn new(id: u64) -> (r: Principal)
        ensures
            r.id == id,
    {
        Principal { id }
    }
}

/// A fresh copy of a byte string.
pub fn copy_bytes(b: &Vec<u8>) -> (r: Vec<u8>)
    ensures
        r@ == b@,
{
    let r = b.clone();
    assert(r@ =~= b@);
    r
}

/// Byte-wise equality of two byte strings.
pub fn bytes_eq(a: &Vec<u8>, b: &Vec<u8>) -> (r: bool)
    ensures
        r == (a@ == b@),
{
    if a.len() != b.len() {
        return false;
    }
    let mut i: usize = 0;
    while i < a.len()
        invariant
            a@.len() == b@.len(),
            0 <= i <= a@.len(),
            forall|j: int| 0 <= j < i ==> a@[j] == b@[j],
        decreases a@.len() - i,
    {
        if a[i] != b[i] {
            return false;
        }
        i = i + 1;
    }
    assert(a@ =~= b@);
    true
}

} // verus!
