use crate::address::Address;
use crate::contexts::make::{Make, MakeBumps};
use crate::contexts::refund::Refund;
use crate::contexts::take::Take;
use crate::error::SwapError;
use crate::instructions::shared::{trasfer_token, Authority};
use crate::ledger::Ledger;
use crate::model::Market;
use crate::registry::{associated_token_program_bytes, EscrowRegistry};
use crate::rules::{check_make, check_refund, check_take};
use crate::state::Escrow;
use vstd::prelude::*;

verus! {

/// A token ledger together with the open offers of one program. Every open
/// offer has its vault on the ledger, owned by the address of the offer's
/// record.
pub struct Exchange {
    ledger: Ledger,
    registry: EscrowRegistry,
}

impl View for Exchange {
    type V = Market;

    closed spec fn view(&self) -> Market {
        Market {
            program: self.registry.program(),
            tokens: self.registry.tokens(),
            balances: self.ledger@,
            escrows: self.registry@,
        }
    }
}

impl Exchange {
    /// The ledger and the registry are each in order, and every open offer
    /// has its vault.
    pub closed spec fn wf(&self) -> bool {
        &&& self.ledger.wf()
        &&& self.registry.wf()
        &&& self.registry.associated_tokens()@ == associated_token_program_bytes()
        &&& self@.custodial()
    }

    /// The sum of all balances of `mint`.
    pub closed spec fn supply(&self, mint: Address) -> nat {
        self.ledger.supply(mint)
    }

    /// Every open offer has its vault; no balance exceeds its mint's supply,
    /// and no supply a `u64`.
    pub proof fn lemma_valid(&self, owner: Address, mint: Address)
        requires
            self.wf(),
        ensures
            self@.custodial(),
            self@.balance(owner, mint) <= self.supply(mint) <= u64::MAX,
    {
        self.ledger.lemma_supply_bounds(owner, mint);
    }

    /// An exchange for the offers of `program_id`, with nothing on its
    /// ledger and no offer open.
    pub fn new(program_id: Address, token_program: Address) -> (r: Exchange)
        ensures
            r.wf(),
            r@.program == program_id,
            r@.tokens == token_program,
            r@.balances == Map::<(Address, Address), nat>::empty(),
            r@.escrows == Map::<Address, Escrow>::empty(),
            forall|m: Address| r.supply(m) == 0,
    {
        Exchange { ledger: Ledger::new(), registry: EscrowRegistry::new(program_id, token_program) }
    }

    /// The ledger, to read.
    pub fn ledger(&self) -> (r: &Ledger)
        requires
            self.wf(),
        ensures
            r.wf(),
            r@ == self@.balances,
            forall|m: Address| r.supply(m) == self.supply(m),
    {
        &self.ledger
    }

    /// The registry of open offers, to read.
    pub fn registry(&self) -> (r: &EscrowRegistry)
        requires
            self.wf(),
        ensures
            r.wf(),
            r@ == self@.escrows,
            r.program() == self@.program,
            r.tokens() == self@.tokens,
            r.associated_tokens()@ == associated_token_program_bytes(),
    {
        &self.registry
    }

    /// Issues `amount` new tokens of `mint` to `owner`, unless the supply
    /// would no longer fit in a `u64`.
    pub fn fund(&mut self, owner: &Address, mint: &Address, amount: u64) -> (r: bool)
        requires
            old(self).wf(),
        ensures
            final(self).wf(),
            r == (old(self).supply(*mint) + amount <= u64::MAX),
            r ==> final(self)@ == old(self)@.funded(*owner, *mint, amount as nat),
            !r ==> final(self)@ == old(self)@,
            r ==> final(self).supply(*mint) == old(self).supply(*mint) + amount,
            !r ==> final(self).supply(*mint) == old(self).supply(*mint),
            forall|m: Address| m != *mint ==> final(self).supply(m) == old(self).supply(m),
    {
        let r = self.ledger.credit(owner, mint, amount);
        proof {
            assert forall|a: Address| #[trigger] self@.escrows.contains_key(a) implies self@.balances.contains_key(
                (a, self@.escrows[a].mint_a),
            ) by {
                assert(old(self)@.escrows.contains_key(a));
            }
        }
        r
    }

    /// Whether the record at `address` can sign for that address: whether
    /// there is one, and its seeds hash to the address.
    pub fn vault_signed(&self, address: &Address) -> (r: bool)
        requires
            self.wf(),
        ensures
            r == self@.signs(*address),
    {
        match self.registry.get(address) {
            Some(escrow) => {
                let authority = Authority::Seeds {
                    program: self.registry.program_id(),
                    seeds: escrow.signing_seeds(),
                };
                authority.check(address)
            },
            None => false,
        }
    }
}

/// Opens an offer at the address that was derived for it: the record is
/// created, its vault is opened, and the deposit moves from the maker into
/// the vault; or the request is refused and nothing changes. `derived` is
/// what the search for the address gave.
pub fn make_at(
    exchange: &mut Exchange,
    ctx: Make,
    seed: u64,
    deposit: u64,
    receive: u64,
    derived: Option<(Address, u8)>,
) -> (r: Result<(), SwapError>)
    requires
        old(exchange).wf(),
    ensures
        final(exchange).wf(),
        r == old(exchange)@.make_result(ctx, deposit as nat, derived),
        final(exchange)@ == old(exchange)@.made(ctx, seed, deposit as nat, receive, derived),
        forall|m: Address| final(exchange).supply(m) == old(exchange).supply(m),
{
    let (address, bump) = match derived {
        Some(found) => found,
        None => {
            return check_make(&ctx.maker, &derived, false, 0, deposit);
        },
    };
    let occupied = exchange.registry.contains(&address) || exchange.ledger.contains(
        &address,
        &ctx.mint_a,
    );
    let funds = exchange.ledger.balance(&ctx.maker.key, &ctx.mint_a);
    let admitted = check_make(&ctx.maker, &derived, occupied, funds, deposit);
    if admitted.is_err() {
        return admitted;
    }
    let opened = exchange.ledger.open(&address, &ctx.mint_a);
    let authority = Authority::Signature(ctx.maker);
    let paid = trasfer_token(
        &mut exchange.ledger,
        &ctx.maker.key,
        &address,
        &deposit,
        &ctx.mint_a,
        &authority,
    );
    let mut accounts = ctx;
    let bumps = MakeBumps { escrow: bump };
    let saved = accounts.save_escrow(seed, receive, &bumps);
    let created = exchange.registry.create(&address, accounts.escrow);
    assert(opened && paid is Ok && saved is Ok && created);
    Ok(())
}

/// Opens an offer: `ctx.maker` deposits `deposit` of `ctx.mint_a` and asks
/// `receive` of `ctx.mint_b` for it. The offer's address is derived from
/// the maker and `seed`; the rest is `make_at`. The record of an offer that
/// was opened can sign for its vault.
pub fn make(exchange: &mut Exchange, ctx: Make, seed: u64, deposit: u64, receive: u64) -> (r:
    Result<(), SwapError>)
    requires
        old(exchange).wf(),
    ensures
        final(exchange).wf(),
        r == old(exchange)@.make_result(
            ctx,
            deposit as nat,
            old(exchange)@.derived(ctx.maker.key, seed),
        ),
        final(exchange)@ == old(exchange)@.made(
            ctx,
            seed,
            deposit as nat,
            receive,
            old(exchange)@.derived(ctx.maker.key, seed),
        ),
        r is Ok ==> final(exchange)@.signs(old(exchange)@.derived(ctx.maker.key, seed).unwrap().0),
        forall|m: Address| final(exchange).supply(m) == old(exchange).supply(m),
{
    let derived = exchange.registry.derive(&ctx.maker.key, seed);
    make_at(exchange, ctx, seed, deposit, receive, derived)
}

/// Fills an offer, where `vault_signed` says whether the offer's record can
/// sign for its vault: the taker pays the maker what the record asks, the
/// vault pays the taker all it holds, and vault and record are closed; or
/// the request is refused and nothing changes.
pub fn take_with(exchange: &mut Exchange, ctx: Take, vault_signed: bool) -> (r: Result<
    (),
    SwapError,
>)
    requires
        old(exchange).wf(),
    ensures
        final(exchange).wf(),
        r == old(exchange)@.take_result(ctx, vault_signed),
        final(exchange)@ == old(exchange)@.taken(ctx, vault_signed),
        forall|m: Address| final(exchange).supply(m) == old(exchange).supply(m),
{
    let record = exchange.registry.get(&ctx.escrow);
    let escrow = match record {
        Some(escrow) => escrow,
        None => {
            return check_take(&ctx.taker, &ctx.escrow, &record, 0, vault_signed);
        },
    };
    let funds = exchange.ledger.balance(&ctx.taker.key, &escrow.mint_b);
    let admitted = check_take(&ctx.taker, &ctx.escrow, &record, funds, vault_signed);
    if admitted.is_err() {
        return admitted;
    }
    let deposit = exchange.ledger.balance(&ctx.escrow, &escrow.mint_a);
    let authority = Authority::Signature(ctx.taker);
    let paid = trasfer_token(
        &mut exchange.ledger,
        &ctx.taker.key,
        &escrow.maker,
        &escrow.receive,
        &escrow.mint_b,
        &authority,
    );
    let released = exchange.ledger.transfer(
        &ctx.escrow,
        &ctx.taker.key,
        &escrow.mint_a,
        deposit,
        vault_signed,
    );
    let closed = exchange.ledger.close(&ctx.escrow, &escrow.mint_a);
    let destroyed = exchange.registry.destroy(&ctx.escrow);
    assert(paid is Ok && released is Ok && closed && destroyed is Some);
    Ok(())
}

/// Fills the offer at `ctx.escrow` for `ctx.taker`. Whether the offer's
/// record can sign for its vault is checked from the record's own seeds;
/// the rest is `take_with`.
pub fn take(exchange: &mut Exchange, ctx: Take) -> (r: Result<(), SwapError>)
    requires
        old(exchange).wf(),
    ensures
        final(exchange).wf(),
        r == old(exchange)@.take_result(ctx, old(exchange)@.signs(ctx.escrow)),
        final(exchange)@ == old(exchange)@.taken(ctx, old(exchange)@.signs(ctx.escrow)),
        forall|m: Address| final(exchange).supply(m) == old(exchange).supply(m),
{
    let vault_signed = exchange.vault_signed(&ctx.escrow);
    take_with(exchange, ctx, vault_signed)
}

/// Takes an offer back, where `vault_signed` says whether the offer's record
/// can sign for its vault: the vault pays the maker all it holds, and vault
/// and record are closed; or the request is refused and nothing changes.
pub fn refund_with(exchange: &mut Exchange, ctx: Refund, vault_signed: bool) -> (r: Result<
    (),
    SwapError,
>)
    requires
        old(exchange).wf(),
    ensures
        final(exchange).wf(),
        r == old(exchange)@.refund_result(ctx, vault_signed),
        final(exchange)@ == old(exchange)@.refunded(ctx, vault_signed),
        forall|m: Address| final(exchange).supply(m) == old(exchange).supply(m),
{
    let record = exchange.registry.get(&ctx.escrow);
    let admitted = check_refund(&ctx.maker, &record, vault_signed);
    let escrow = match record {
        Some(escrow) => escrow,
        None => {
            return admitted;
        },
    };
    if admitted.is_err() {
        return admitted;
    }
    let deposit = exchange.ledger.balance(&ctx.escrow, &escrow.mint_a);
    let released = exchange.ledger.transfer(
        &ctx.escrow,
        &escrow.maker,
        &escrow.mint_a,
        deposit,
        vault_signed,
    );
    let closed = exchange.ledger.close(&ctx.escrow, &escrow.mint_a);
    let destroyed = exchange.registry.destroy(&ctx.escrow);
    assert(released is Ok && closed && destroyed is Some);
    Ok(())
}

/// Takes the offer at `ctx.escrow` back for `ctx.maker`. Whether the
/// offer's record can sign for its vault is checked from the record's own
/// seeds; the rest is `refund_with`.
pub fn refund(exchange: &mut Exchange, ctx: Refund) -> (r: Result<(), SwapError>)
    requires
        old(exchange).wf(),
    ensures
        final(exchange).wf(),
        r == old(exchange)@.refund_result(ctx, old(exchange)@.signs(ctx.escrow)),
        final(exchange)@ == old(exchange)@.refunded(ctx, old(exchange)@.signs(ctx.escrow)),
        forall|m: Address| final(exchange).supply(m) == old(exchange).supply(m),
{
    let vault_signed = exchange.vault_signed(&ctx.escrow);
    refund_with(exchange, ctx, vault_signed)
}

} // verus!
