use crate::address::Address;
use crate::contexts::Signer;
use vstd::prelude::*;

verus! {

/// What a maker presents to take an offer back.
#[derive(Clone, Copy, Debug)]
pub struct Refund {
    /// Who asks; only the maker the record names is heard.
    pub maker: Signer,
    /// The address of the offer's record.
    pub escrow: Address,
}

} // verus!
