//! What both contracts share: the model of an address, and copying texts.
use vstd::prelude::*;

verus! {

/// The model of an optional address: the characters of its strkey.
pub open spec fn address_view(a: Option<String>) -> Option<Seq<char>> {
    match a {
        Some(s) => Some(s@),
        None => None,
    }
}

/// A copy of `bytes`.
pub(crate) fn copy_bytes(bytes: &Vec<u8>) -> (c: Vec<u8>)
    ensures
        c@ == bytes@,
{
    let c = bytes.clone();
    assert(c@ =~= bytes@);
    c
}

} // verus!
