use crate::address::{creates, derives, seed_views, Address};
use crate::contexts::Signer;
use crate::error::SwapError;
use crate::ledger::{moved, transfer_result, Ledger};
use vstd::prelude::*;

verus! {

/// A proof of authority over an account's owner address.
pub enum Authority {
    /// The owner signed the request.
    Signature(Signer),
    /// The owner is an address of `program`, shown by the seeds that hash to
    /// it.
    Seeds { program: Address, seeds: Vec<Vec<u8>> },
}

impl Authority {
    /// Whether the proof holds for `owner`: a signature must be present and
    /// be the owner's own; seeds must hash to the owner's address.
    pub open spec fn covers(&self, owner: Address) -> bool {
        match *self {
            Authority::Signature(signer) => signer.is_signer && signer.key == owner,
            Authority::Seeds { program, seeds } => creates(seed_views(seeds@), program, owner),
        }
    }

    /// Checks the proof for `owner`.
    pub fn check(&self, owner: &Address) -> (r: bool)
        ensures
            r == self.covers(*owner),
    {
        match self {
            Authority::Signature(signer) => signer.is_signer && signer.key == *owner,
            Authority::Seeds { program, seeds } => derives(seeds, program, owner),
        }
    }
}

/// Moves `amount` of `mint` from the account of `from` to that of `to`, all
/// of it or none. It is refused as `Unauthorized` unless `authority` holds
/// for `from`, and else as `InsufficientFunds` where `from` holds less than
/// `amount`.
pub fn trasfer_token(
    ledger: &mut Ledger,
    from: &Address,
    to: &Address,
    amount: &u64,
    mint: &Address,
    authority: &Authority,
) -> (r: Result<(), SwapError>)
    requires
        old(ledger).wf(),
    ensures
        final(ledger).wf(),
        r == transfer_result(old(ledger)@, *from, *mint, *amount as nat, authority.covers(*from)),
        r is Ok ==> final(ledger)@ == moved(old(ledger)@, *from, *to, *mint, *amount as nat),
        r is Err ==> final(ledger)@ == old(ledger)@,
        forall|m: Address| final(ledger).supply(m) == old(ledger).supply(m),
{
    let authorized = authority.check(from);
    ledger.transfer(from, to, mint, *amount, authorized)
}

} // verus!
