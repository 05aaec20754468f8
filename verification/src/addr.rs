//! Addresses and address lists.
//!
//! An address is modelled as a plain `u64`. Key-held wallet addresses are
//! chosen by the environment; derived record addresses are assigned by the
//! ledger from a counter, so they are unique by construction and hold no
//! signing key of their own.

use vstd::prelude::*;

verus! {

/// Whether an address list contains an address.
pub fn addr_list_contains(list: &Vec<u64>, addr: u64) -> (r: bool)
    ensures
        r == list@.contains(addr),
{
    let mut i: usize = 0;
    while i < list.len()
        invariant
            i <= list@.len(),
            forall|j: int| 0 <= j < i ==> list@[j] != addr,
        decreases list@.len() - i,
    {
        if list[i] == addr {
            return true;
        }
        i = i + 1;
    }
    false
}

} // verus!
