use crate::address::Address;
use crate::contexts::make::Make;
use crate::contexts::refund::Refund;
use crate::contexts::take::Take;
use crate::error::SwapError;
use crate::ledger::{balance_of, credited, moved};
use crate::registry::record_at;
use crate::rules::{make_rule, refund_rule, take_rule};
use crate::state::{escrow_address, Escrow};
use vstd::prelude::*;

verus! {

/// The state of an exchange, as mathematics: who holds how much of which
/// mint, and which offers are open at which address.
#[verifier::ext_equal]
pub struct Market {
    /// The program whose records the offers are.
    pub program: Address,
    /// The token program under which the accounts are held.
    pub tokens: Address,
    /// The balance of each token account, by owner and mint.
    pub balances: Map<(Address, Address), nat>,
    /// The record of each open offer, by its address.
    pub escrows: Map<Address, Escrow>,
}

impl Market {
    /// What `owner` holds of `mint`.
    pub open spec fn balance(self, owner: Address, mint: Address) -> nat {
        balance_of(self.balances, owner, mint)
    }

    /// What the vault of the record at `address` holds.
    pub open spec fn vault(self, address: Address) -> nat {
        self.balance(address, self.escrows[address].mint_a)
    }

    /// Every open offer has its vault, owned by the record's address, and no
    /// record lives at its maker's own address.
    pub open spec fn custodial(self) -> bool {
        forall|a: Address| #[trigger]
            self.escrows.contains_key(a) ==> self.balances.contains_key(
                (a, self.escrows[a].mint_a),
            ) && self.escrows[a].maker != a
    }

    /// The address at which `maker` opens an offer under `seed`, with its
    /// bump seed.
    pub open spec fn derived(self, maker: Address, seed: u64) -> Option<(Address, u8)> {
        escrow_address(self.program, maker, seed)
    }

    /// Whether the record at `address` can sign for that address, and so for
    /// the vault it owns.
    pub open spec fn signs(self, address: Address) -> bool {
        self.escrows.contains_key(address) && self.escrows[address].owns(self.program, address)
    }

    /// The market with `amount` new tokens of `mint` issued to `owner`.
    pub open spec fn funded(self, owner: Address, mint: Address, amount: nat) -> Market {
        Market { balances: credited(self.balances, owner, mint, amount), ..self }
    }

    /// The record at `address`, if one lives there.
    pub open spec fn record(self, address: Address) -> Option<Escrow> {
        record_at(self.escrows, address)
    }

    /// Whether a record or a vault for `mint` stands at `address`.
    pub open spec fn occupied(self, address: Address, mint: Address) -> bool {
        self.escrows.contains_key(address) || self.balances.contains_key((address, mint))
    }

    /// How a request to open an offer ends, where the search for its
    /// address gave `derived`.
    pub open spec fn make_result(
        self,
        ctx: Make,
        deposit: nat,
        derived: Option<(Address, u8)>,
    ) -> Result<(), SwapError> {
        make_rule(
            ctx.maker,
            derived,
            derived is Some && self.occupied(derived.unwrap().0, ctx.mint_a),
            self.balance(ctx.maker.key, ctx.mint_a),
            deposit,
        )
    }

    /// The market after the offer was opened at the address that `derived`
    /// holds: the record is there, and its new vault holds the deposit,
    /// which the maker paid.
    pub open spec fn after_make(
        self,
        ctx: Make,
        seed: u64,
        deposit: nat,
        receive: u64,
        derived: Option<(Address, u8)>,
    ) -> Market {
        let (address, bump) = derived.unwrap();
        Market {
            balances: moved(
                self.balances.insert((address, ctx.mint_a), 0),
                ctx.maker.key,
                address,
                ctx.mint_a,
                deposit,
            ),
            escrows: self.escrows.insert(address, ctx.record(seed, receive, bump)),
            ..self
        }
    }

    /// The market after a request to open an offer: changed where the
    /// request went through, and else as it was.
    pub open spec fn made(
        self,
        ctx: Make,
        seed: u64,
        deposit: nat,
        receive: u64,
        derived: Option<(Address, u8)>,
    ) -> Market {
        if self.make_result(ctx, deposit, derived) is Ok {
            self.after_make(ctx, seed, deposit, receive, derived)
        } else {
            self
        }
    }

    /// How a request to fill an offer ends, where `vault_signed` says whether
    /// the record can sign for its vault.
    pub open spec fn take_result(self, ctx: Take, vault_signed: bool) -> Result<(), SwapError> {
        take_rule(
            ctx.taker,
            ctx.escrow,
            self.record(ctx.escrow),
            self.balance(ctx.taker.key, self.escrows[ctx.escrow].mint_b),
            vault_signed,
        )
    }

    /// The market after the offer was filled: the taker has paid the maker
    /// what the record asks, the vault has paid the taker all it held, and
    /// vault and record are gone.
    pub open spec fn after_take(self, ctx: Take) -> Market {
        let e = self.escrows[ctx.escrow];
        let paid = moved(self.balances, ctx.taker.key, e.maker, e.mint_b, e.receive as nat);
        let released = moved(paid, ctx.escrow, ctx.taker.key, e.mint_a, self.vault(ctx.escrow));
        Market {
            balances: released.remove((ctx.escrow, e.mint_a)),
            escrows: self.escrows.remove(ctx.escrow),
            ..self
        }
    }

    /// The market after a request to fill an offer: changed where the
    /// request went through, and else as it was.
    pub open spec fn taken(self, ctx: Take, vault_signed: bool) -> Market {
        if self.take_result(ctx, vault_signed) is Ok {
            self.after_take(ctx)
        } else {
            self
        }
    }

    /// How a request to take an offer back ends, where `vault_signed` says
    /// whether the record can sign for its vault.
    pub open spec fn refund_result(self, ctx: Refund, vault_signed: bool) -> Result<
        (),
        SwapError,
    > {
        refund_rule(ctx.maker, self.record(ctx.escrow), vault_signed)
    }

    /// The market after the offer was taken back: the vault has paid the
    /// maker all it held, and vault and record are gone.
    pub open spec fn after_refund(self, ctx: Refund) -> Market {
        let e = self.escrows[ctx.escrow];
        let released = moved(
            self.balances,
            ctx.escrow,
            e.maker,
            e.mint_a,
            self.vault(ctx.escrow),
        );
        Market {
            balances: released.remove((ctx.escrow, e.mint_a)),
            escrows: self.escrows.remove(ctx.escrow),
            ..self
        }
    }

    /// The market after a request to take an offer back: changed where the
    /// request went through, and else as it was.
    pub open spec fn refunded(self, ctx: Refund, vault_signed: bool) -> Market {
        if self.refund_result(ctx, vault_signed) is Ok {
            self.after_refund(ctx)
        } else {
            self
        }
    }
}

} // verus!
