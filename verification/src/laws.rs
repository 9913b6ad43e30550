use crate::address::Address;
use crate::contexts::make::Make;
use crate::contexts::refund::Refund;
use crate::contexts::take::Take;
use crate::error::SwapError;
use crate::model::Market;
use crate::state::Escrow;
use vstd::prelude::*;

verus! {

/// The address of an offer depends on the program, the maker and the seed
/// alone: whatever is asked of a market in between, granted or refused, the
/// same maker and seed derive the same address and bump seed.
pub proof fn derived_address_is_stable(
    m: Market,
    maker: Address,
    seed: u64,
    make: Make,
    make_seed: u64,
    deposit: nat,
    receive: u64,
    derived: Option<(Address, u8)>,
    take: Take,
    refund: Refund,
    vault_signed: bool,
    owner: Address,
    mint: Address,
    amount: nat,
)
    ensures
        m.made(make, make_seed, deposit, receive, derived).derived(maker, seed) == m.derived(
            maker,
            seed,
        ),
        m.taken(take, vault_signed).derived(maker, seed) == m.derived(maker, seed),
        m.refunded(refund, vault_signed).derived(maker, seed) == m.derived(maker, seed),
        m.funded(owner, mint, amount).derived(maker, seed) == m.derived(maker, seed),
{
}

/// An offer that was opened stands at its derived address with exactly the
/// terms that were asked; its vault holds exactly the deposit, and the maker
/// holds that much less.
pub proof fn make_opens_the_offer(
    m: Market,
    ctx: Make,
    seed: u64,
    deposit: nat,
    receive: u64,
    address: Address,
    bump: u8,
)
    requires
        m.make_result(ctx, deposit, Some((address, bump))) is Ok,
    ensures
        m.made(ctx, seed, deposit, receive, Some((address, bump))).escrows.contains_key(address),
        m.made(ctx, seed, deposit, receive, Some((address, bump))).escrows[address] == (Escrow {
            seed,
            maker: ctx.maker.key,
            mint_a: ctx.mint_a,
            mint_b: ctx.mint_b,
            receive,
            bump,
        }),
        m.made(ctx, seed, deposit, receive, Some((address, bump))).vault(address) == deposit,
        m.made(ctx, seed, deposit, receive, Some((address, bump))).balance(
            ctx.maker.key,
            ctx.mint_a,
        ) + deposit == m.balance(ctx.maker.key, ctx.mint_a),
{
}

/// A maker who has opened an offer under a seed cannot open another under
/// the same seed: the signed request is refused as `AlreadyExists`, whatever
/// its terms, and changes nothing.
pub proof fn seed_is_used_once(
    m: Market,
    first: Make,
    again: Make,
    seed: u64,
    deposit: nat,
    receive: u64,
    deposit_again: nat,
    receive_again: u64,
)
    requires
        m.make_result(first, deposit, m.derived(first.maker.key, seed)) is Ok,
        again.maker.key == first.maker.key,
        again.maker.is_signer,
    ensures
        ({
            let n = m.made(first, seed, deposit, receive, m.derived(first.maker.key, seed));
            &&& n.make_result(again, deposit_again, n.derived(again.maker.key, seed)) == Err::<
                (),
                SwapError,
            >(SwapError::AlreadyExists)
            &&& n.made(again, seed, deposit_again, receive_again, n.derived(again.maker.key, seed))
                == n
        }),
{
}

/// An offer that was filled has paid both sides, and vault and record are
/// gone. The maker holds more of the wanted mint by exactly what the record
/// asked; only where maker and taker are one party, which then paid itself,
/// it holds more by what the vault paid out in that mint. The taker holds
/// more of the deposited mint by exactly what the vault held; only where
/// the taker paid another maker in that same mint the taker holds that much
/// less.
pub proof fn take_pays_both_sides(m: Market, ctx: Take, vault_signed: bool)
    requires
        m.custodial(),
        m.take_result(ctx, vault_signed) is Ok,
    ensures
        ({
            let e = m.escrows[ctx.escrow];
            let n = m.taken(ctx, vault_signed);
            let same_party = ctx.taker.key == e.maker;
            let same_mint = e.mint_a == e.mint_b;
            &&& !same_party ==> n.balance(e.maker, e.mint_b) == m.balance(e.maker, e.mint_b)
                + e.receive
            &&& same_party ==> n.balance(e.maker, e.mint_b) == m.balance(e.maker, e.mint_b) + (
            if same_mint {
                m.vault(ctx.escrow)
            } else {
                0
            })
            &&& same_party || !same_mint ==> n.balance(ctx.taker.key, e.mint_a) == m.balance(
                ctx.taker.key,
                e.mint_a,
            ) + m.vault(ctx.escrow)
            &&& !same_party && same_mint ==> n.balance(ctx.taker.key, e.mint_a) + e.receive
                == m.balance(ctx.taker.key, e.mint_a) + m.vault(ctx.escrow)
            &&& !n.escrows.contains_key(ctx.escrow)
            &&& !n.balances.contains_key((ctx.escrow, e.mint_a))
        }),
{
}

/// An offer that was taken back has paid the maker exactly what the vault
/// held, and vault and record are gone.
pub proof fn refund_returns_the_deposit(m: Market, ctx: Refund, vault_signed: bool)
    requires
        m.custodial(),
        m.refund_result(ctx, vault_signed) is Ok,
    ensures
        ({
            let e = m.escrows[ctx.escrow];
            let n = m.refunded(ctx, vault_signed);
            &&& n.balance(e.maker, e.mint_a) == m.balance(e.maker, e.mint_a) + m.vault(ctx.escrow)
            &&& !n.escrows.contains_key(ctx.escrow)
            &&& !n.balances.contains_key((ctx.escrow, e.mint_a))
        }),
{
}

/// Whether a request to fill an offer and a request to take one back are
/// both refused as `NotFound`, and change nothing.
pub open spec fn closed_to(n: Market, take: Take, refund: Refund, vault_signed: bool) -> bool {
    &&& n.take_result(take, vault_signed) == Err::<(), SwapError>(SwapError::NotFound)
    &&& n.refund_result(refund, vault_signed) == Err::<(), SwapError>(SwapError::NotFound)
    &&& n.taken(take, vault_signed) == n
    &&& n.refunded(refund, vault_signed) == n
}

/// Whoever settles an offer first, by filling it or by taking it back,
/// settles it alone: every later signed request to fill it or to take it
/// back is refused as `NotFound` and changes nothing.
pub proof fn first_to_settle_wins(
    m: Market,
    take: Take,
    refund: Refund,
    vault_signed: bool,
    next_take: Take,
    next_refund: Refund,
    next_signed: bool,
)
    requires
        take.escrow == refund.escrow,
        next_take.escrow == take.escrow,
        next_take.taker.is_signer,
        next_take.taker.key != next_take.escrow,
        next_refund.escrow == take.escrow,
        next_refund.maker.is_signer,
    ensures
        m.take_result(take, vault_signed) is Ok ==> closed_to(
            m.taken(take, vault_signed),
            next_take,
            next_refund,
            next_signed,
        ),
        m.refund_result(refund, vault_signed) is Ok ==> closed_to(
            m.refunded(refund, vault_signed),
            next_take,
            next_refund,
            next_signed,
        ),
{
}

/// Where no record lives at an address, be it that the offer was filled or
/// taken back, every signed request to fill it or to take it back is refused
/// as `NotFound` and changes nothing.
pub proof fn closed_offer_is_not_found(
    m: Market,
    take: Take,
    refund: Refund,
    take_signed: bool,
    refund_signed: bool,
)
    requires
        !m.escrows.contains_key(take.escrow),
        take.taker.is_signer,
        take.taker.key != take.escrow,
        !m.escrows.contains_key(refund.escrow),
        refund.maker.is_signer,
    ensures
        m.take_result(take, take_signed) == Err::<(), SwapError>(SwapError::NotFound),
        m.taken(take, take_signed) == m,
        m.refund_result(refund, refund_signed) == Err::<(), SwapError>(SwapError::NotFound),
        m.refunded(refund, refund_signed) == m,
{
}

/// Nobody but the maker whom the record names takes an offer back: the
/// request of another is refused as `Unauthorized` and changes nothing.
pub proof fn only_the_maker_refunds(m: Market, ctx: Refund, vault_signed: bool)
    requires
        m.escrows.contains_key(ctx.escrow),
        ctx.maker.key != m.escrows[ctx.escrow].maker,
    ensures
        m.refund_result(ctx, vault_signed) == Err::<(), SwapError>(SwapError::Unauthorized),
        m.refunded(ctx, vault_signed) == m,
{
}

/// A taker who signs and holds less than the record asks is refused as
/// `InsufficientFunds`, and nothing changes.
pub proof fn underfunded_take_is_refused(m: Market, ctx: Take, vault_signed: bool)
    requires
        ctx.taker.is_signer,
        ctx.taker.key != ctx.escrow,
        m.escrows.contains_key(ctx.escrow),
        m.balance(ctx.taker.key, m.escrows[ctx.escrow].mint_b) < m.escrows[ctx.escrow].receive,
    ensures
        m.take_result(ctx, vault_signed) == Err::<(), SwapError>(SwapError::InsufficientFunds),
        m.taken(ctx, vault_signed) == m,
{
}

/// Custody is kept: where every open offer had its vault, every open offer
/// has its vault after any request, granted or refused, and after any
/// issue of tokens.
pub proof fn custody_is_kept(
    m: Market,
    make: Make,
    seed: u64,
    deposit: nat,
    receive: u64,
    derived: Option<(Address, u8)>,
    take: Take,
    refund: Refund,
    vault_signed: bool,
    owner: Address,
    mint: Address,
    amount: nat,
)
    requires
        m.custodial(),
    ensures
        m.made(make, seed, deposit, receive, derived).custodial(),
        m.taken(take, vault_signed).custodial(),
        m.refunded(refund, vault_signed).custodial(),
        m.funded(owner, mint, amount).custodial(),
{
    let made = m.made(make, seed, deposit, receive, derived);
    assert forall|a: Address| #[trigger] made.escrows.contains_key(a) implies made.balances.contains_key(
        (a, made.escrows[a].mint_a),
    ) && made.escrows[a].maker != a by {
        assert(made.escrows.contains_key(a));
    }
    let taken = m.taken(take, vault_signed);
    assert forall|a: Address| #[trigger] taken.escrows.contains_key(a) implies taken.balances.contains_key(
        (a, taken.escrows[a].mint_a),
    ) && taken.escrows[a].maker != a by {
        assert(m.escrows.contains_key(a));
    }
    let refunded = m.refunded(refund, vault_signed);
    assert forall|a: Address| #[trigger] refunded.escrows.contains_key(a) implies refunded.balances.contains_key(
        (a, refunded.escrows[a].mint_a),
    ) && refunded.escrows[a].maker != a by {
        assert(m.escrows.contains_key(a));
    }
    let funded = m.funded(owner, mint, amount);
    assert forall|a: Address| #[trigger] funded.escrows.contains_key(a) implies funded.balances.contains_key(
        (a, funded.escrows[a].mint_a),
    ) && funded.escrows[a].maker != a by {
        assert(m.escrows.contains_key(a));
    }
}

/// A record is never rewritten: for as long as an offer is open, its record
/// is the one it was opened with.
pub proof fn records_are_immutable(
    m: Market,
    address: Address,
    make: Make,
    seed: u64,
    deposit: nat,
    receive: u64,
    derived: Option<(Address, u8)>,
    take: Take,
    refund: Refund,
    vault_signed: bool,
    owner: Address,
    mint: Address,
    amount: nat,
)
    requires
        m.escrows.contains_key(address),
    ensures
        m.made(make, seed, deposit, receive, derived).record(address) == m.record(address),
        m.funded(owner, mint, amount).record(address) == m.record(address),
        m.taken(take, vault_signed).escrows.contains_key(address) ==> m.taken(
            take,
            vault_signed,
        ).record(address) == m.record(address),
        m.refunded(refund, vault_signed).escrows.contains_key(address) ==> m.refunded(
            refund,
            vault_signed,
        ).record(address) == m.record(address),
{
}

/// A vault pays out only when its own offer is filled or taken back. As long
/// as nobody signs by the address of the record, which has no key to sign
/// with, no other request takes anything out of the record's vault.
pub proof fn vault_pays_only_its_own_offer(
    m: Market,
    address: Address,
    make: Make,
    seed: u64,
    deposit: nat,
    receive: u64,
    derived: Option<(Address, u8)>,
    take: Take,
    refund: Refund,
    vault_signed: bool,
    owner: Address,
    mint: Address,
    amount: nat,
)
    requires
        m.custodial(),
        m.escrows.contains_key(address),
    ensures
        make.maker.key != address ==> m.made(make, seed, deposit, receive, derived).vault(address)
            >= m.vault(address),
        take.taker.key != address && take.escrow != address ==> m.taken(take, vault_signed).vault(
            address,
        ) >= m.vault(address),
        refund.escrow != address ==> m.refunded(refund, vault_signed).vault(address) >= m.vault(
            address,
        ),
        m.funded(owner, mint, amount).vault(address) >= m.vault(address),
{
    assert(m.escrows.contains_key(address));
    if m.take_result(take, vault_signed) is Ok {
        assert(m.escrows.contains_key(take.escrow));
    }
    if m.refund_result(refund, vault_signed) is Ok {
        assert(m.escrows.contains_key(refund.escrow));
    }
}

/// A record that can sign for its vault can do so for as long as it lives:
/// no request and no issue of tokens takes that away.
pub proof fn authority_is_kept(
    m: Market,
    address: Address,
    make: Make,
    seed: u64,
    deposit: nat,
    receive: u64,
    derived: Option<(Address, u8)>,
    take: Take,
    refund: Refund,
    vault_signed: bool,
    owner: Address,
    mint: Address,
    amount: nat,
)
    requires
        m.signs(address),
    ensures
        m.made(make, seed, deposit, receive, derived).signs(address),
        take.escrow != address ==> m.taken(take, vault_signed).signs(address),
        refund.escrow != address ==> m.refunded(refund, vault_signed).signs(address),
        m.funded(owner, mint, amount).signs(address),
{
}

} // verus!
