use crate::address::Address;
use crate::contexts::Signer;
use crate::error::SwapError;
use crate::state::Escrow;
use vstd::prelude::*;

verus! {

/// The bump seeds found while the accounts of `Make` were derived.
#[derive(Clone, Copy, Debug)]
pub struct MakeBumps {
    pub escrow: u8,
}

/// What a maker presents to open an offer.
#[derive(Clone, Copy, Debug)]
pub struct Make {
    /// Who opens the offer and pays the deposit.
    pub maker: Signer,
    /// The mint of the deposit.
    pub mint_a: Address,
    /// The mint of what is wanted in return.
    pub mint_b: Address,
    /// The record of the offer, filled in by `save_escrow`.
    pub escrow: Escrow,
}

impl Make {
    /// The record that `save_escrow` writes.
    pub open spec fn record(self, seed: u64, receive: u64, bump: u8) -> Escrow {
        Escrow {
            seed,
            maker: self.maker.key,
            mint_a: self.mint_a,
            mint_b: self.mint_b,
            receive,
            bump,
        }
    }

    /// A request by `maker` to deposit `mint_a` for `mint_b`, its record
    /// still blank.
    pub fn new(maker: Signer, mint_a: Address, mint_b: Address) -> (r: Make)
        ensures
            r.maker == maker,
            r.mint_a == mint_a,
            r.mint_b == mint_b,
            r.escrow == r.record(0, 0, 0),
    {
        let escrow = Escrow { seed: 0, maker: maker.key, mint_a, mint_b, receive: 0, bump: 0 };
        Make { maker, mint_a, mint_b, escrow }
    }

    /// Fills in the record of the offer from the request and the terms.
    pub fn save_escrow(&mut self, seed: u64, receive: u64, bumps: &MakeBumps) -> (r: Result<
        (),
        SwapError,
    >)
        ensures
            r is Ok,
            final(self).escrow == old(self).record(seed, receive, bumps.escrow),
            final(self).maker == old(self).maker,
            final(self).mint_a == old(self).mint_a,
            final(self).mint_b == old(self).mint_b,
    {
        self.escrow = Escrow {
            seed,
            maker: self.maker.key,
            mint_a: self.mint_a,
            mint_b: self.mint_b,
            receive,
            bump: bumps.escrow,
        };
        Ok(())
    }
}

} // verus!
