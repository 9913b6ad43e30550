use crate::address::Address;
use crate::contexts::Signer;
use vstd::prelude::*;

verus! {

/// What a taker presents to fill an offer.
#[derive(Clone, Copy, Debug)]
pub struct Take {
    /// Who pays what the maker wants and receives the deposit.
    pub taker: Signer,
    /// The address of the offer's record.
    pub escrow: Address,
}

} // verus!
