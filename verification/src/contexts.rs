pub mod make;
pub mod refund;
pub mod take;

use crate::address::Address;
use vstd::prelude::*;

verus! {

/// A party to an operation, and whether the request carries that party's
/// signature.
#[derive(Clone, Copy, Debug)]
pub struct Signer {
    pub key: Address,
    pub is_signer: bool,
}

} // verus!
