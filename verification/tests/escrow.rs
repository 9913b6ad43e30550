use anchor_lang::prelude::Pubkey;
use std::str::FromStr;
use swap::{
    make, make_at, refund, refund_with, take, take_with, Address, Escrow, Exchange, Make,
    MakeBumps, Refund, Signer, SwapError, Take,
};

fn key(n: u8) -> Address {
    Address { bytes: [n; 32] }
}

fn signer(n: u8) -> Signer {
    Signer { key: key(n), is_signer: true }
}

const MAKER: u8 = 1;
const TAKER: u8 = 2;
const OTHER: u8 = 3;
const MINT_A: u8 = 100;
const MINT_B: u8 = 101;

fn exchange() -> Exchange {
    let program = Pubkey::from_str("H959Jtz2FKx71J2oFfJb1R7uGyuXBpgHZpp9cimtqX2c").unwrap();
    Exchange::new(
        Address { bytes: program.to_bytes() },
        Address { bytes: anchor_spl::token::ID.to_bytes() },
    )
}

fn offer() -> Make {
    Make::new(signer(MAKER), key(MINT_A), key(MINT_B))
}

fn balance(exchange: &Exchange, owner: &Address, mint: u8) -> u64 {
    exchange.ledger().balance(owner, &key(mint))
}

/// An exchange on which the maker holds 100 of A and has offered them for
/// 50 of B under seed 1, and the taker holds 50 of B.
fn opened() -> (Exchange, Address) {
    let mut exchange = exchange();
    assert!(exchange.fund(&key(MAKER), &key(MINT_A), 100));
    assert!(exchange.fund(&key(TAKER), &key(MINT_B), 50));
    assert_eq!(make(&mut exchange, offer(), 1, 100, 50), Ok(()));
    let (at, _) = exchange.registry().derive(&key(MAKER), 1).unwrap();
    (exchange, at)
}

#[test]
fn save_escrow_records_the_terms() {
    let mut ctx = offer();
    assert_eq!(
        ctx.escrow,
        Escrow { seed: 0, maker: key(MAKER), mint_a: key(MINT_A), mint_b: key(MINT_B), receive: 0, bump: 0 }
    );
    assert_eq!(ctx.save_escrow(7, 50, &MakeBumps { escrow: 253 }), Ok(()));
    assert_eq!(
        ctx.escrow,
        Escrow { seed: 7, maker: key(MAKER), mint_a: key(MINT_A), mint_b: key(MINT_B), receive: 50, bump: 253 }
    );
    assert_eq!(ctx.maker.key, key(MAKER));
    assert_eq!(ctx.mint_a, key(MINT_A));
    assert_eq!(ctx.mint_b, key(MINT_B));
}

#[test]
fn make_fills_the_vault_and_records_the_terms() {
    let mut exchange = exchange();
    assert!(exchange.fund(&key(MAKER), &key(MINT_A), 130));
    let (at, bump) = exchange.registry().derive(&key(MAKER), 1).unwrap();
    assert_eq!(make(&mut exchange, offer(), 1, 100, 50), Ok(()));
    assert_eq!(balance(&exchange, &at, MINT_A), 100);
    assert_eq!(balance(&exchange, &key(MAKER), MINT_A), 30);
    assert_eq!(
        exchange.registry().get(&at),
        Some(Escrow { seed: 1, maker: key(MAKER), mint_a: key(MINT_A), mint_b: key(MINT_B), receive: 50, bump })
    );
    assert!(exchange.vault_signed(&at));
    assert!(!exchange.vault_signed(&key(MAKER)));
    assert_eq!(exchange.ledger().total_supply(&key(MINT_A)), 130);
}

#[test]
fn make_twice_under_one_seed_already_exists() {
    let (mut exchange, at) = opened();
    assert!(exchange.fund(&key(MAKER), &key(MINT_A), 10));
    let before = exchange.registry().get(&at);
    let again = Make::new(signer(MAKER), key(MINT_A), key(OTHER));
    assert_eq!(make(&mut exchange, again, 1, 10, 5), Err(SwapError::AlreadyExists));
    assert_eq!(make(&mut exchange, offer(), 1, 0, 0), Err(SwapError::AlreadyExists));
    assert_eq!(exchange.registry().get(&at), before);
    assert_eq!(balance(&exchange, &at, MINT_A), 100);
    assert_eq!(balance(&exchange, &key(MAKER), MINT_A), 10);
    assert_eq!(make(&mut exchange, offer(), 2, 10, 5), Ok(()));
    assert_eq!(balance(&exchange, &key(MAKER), MINT_A), 0);
}

#[test]
fn make_at_a_standing_vault_already_exists() {
    let mut exchange = exchange();
    assert!(exchange.fund(&key(MAKER), &key(MINT_A), 100));
    let (at, _) = exchange.registry().derive(&key(MAKER), 1).unwrap();
    assert!(exchange.fund(&at, &key(MINT_A), 0));
    assert_eq!(make(&mut exchange, offer(), 1, 100, 50), Err(SwapError::AlreadyExists));
    assert_eq!(exchange.registry().get(&at), None);
    assert_eq!(balance(&exchange, &key(MAKER), MINT_A), 100);
}

#[test]
fn make_without_funds_is_refused() {
    let mut exchange = exchange();
    assert_eq!(make(&mut exchange, offer(), 1, 1, 50), Err(SwapError::InsufficientFunds));
    assert!(exchange.fund(&key(MAKER), &key(MINT_A), 99));
    assert_eq!(make(&mut exchange, offer(), 1, 100, 50), Err(SwapError::InsufficientFunds));
    let (at, _) = exchange.registry().derive(&key(MAKER), 1).unwrap();
    assert_eq!(exchange.registry().get(&at), None);
    assert!(!exchange.ledger().contains(&at, &key(MINT_A)));
    assert_eq!(balance(&exchange, &key(MAKER), MINT_A), 99);
    assert_eq!(make(&mut exchange, offer(), 1, 99, 50), Ok(()));
}

#[test]
fn make_without_signature_is_unauthorized() {
    let mut exchange = exchange();
    assert!(exchange.fund(&key(MAKER), &key(MINT_A), 100));
    let unsigned = Make::new(Signer { key: key(MAKER), is_signer: false }, key(MINT_A), key(MINT_B));
    assert_eq!(make(&mut exchange, unsigned, 1, 100, 50), Err(SwapError::Unauthorized));
    assert_eq!(balance(&exchange, &key(MAKER), MINT_A), 100);
}

#[test]
fn make_at_follows_what_was_derived() {
    let mut exchange = exchange();
    assert!(exchange.fund(&key(MAKER), &key(MINT_A), 100));
    assert_eq!(make_at(&mut exchange, offer(), 1, 100, 50, None), Err(SwapError::NotFound));
    assert_eq!(
        make_at(&mut exchange, offer(), 1, 100, 50, Some((key(MAKER), 255))),
        Err(SwapError::Unauthorized)
    );
    assert_eq!(balance(&exchange, &key(MAKER), MINT_A), 100);
    assert_eq!(make_at(&mut exchange, offer(), 1, 100, 50, Some((key(9), 255))), Ok(()));
    assert_eq!(balance(&exchange, &key(9), MINT_A), 100);
    assert_eq!(exchange.registry().get(&key(9)).unwrap().bump, 255);
    assert!(!exchange.vault_signed(&key(9)));
}

#[test]
fn a_record_that_cannot_sign_pays_nobody() {
    let mut exchange = exchange();
    assert!(exchange.fund(&key(MAKER), &key(MINT_A), 100));
    assert!(exchange.fund(&key(TAKER), &key(MINT_B), 50));
    assert_eq!(make_at(&mut exchange, offer(), 1, 100, 50, Some((key(9), 255))), Ok(()));
    assert_eq!(take(&mut exchange, Take { taker: signer(TAKER), escrow: key(9) }), Err(SwapError::Unauthorized));
    assert_eq!(refund(&mut exchange, Refund { maker: signer(MAKER), escrow: key(9) }), Err(SwapError::Unauthorized));
    assert_eq!(balance(&exchange, &key(9), MINT_A), 100);
    assert_eq!(balance(&exchange, &key(TAKER), MINT_B), 50);
    assert_eq!(balance(&exchange, &key(MAKER), MINT_B), 0);
}

#[test]
fn take_swaps_and_closes() {
    let (mut exchange, at) = opened();
    assert_eq!(balance(&exchange, &at, MINT_A), 100);
    assert_eq!(take(&mut exchange, Take { taker: signer(TAKER), escrow: at }), Ok(()));
    assert_eq!(balance(&exchange, &key(TAKER), MINT_A), 100);
    assert_eq!(balance(&exchange, &key(TAKER), MINT_B), 0);
    assert_eq!(balance(&exchange, &key(MAKER), MINT_B), 50);
    assert_eq!(balance(&exchange, &key(MAKER), MINT_A), 0);
    assert_eq!(exchange.registry().get(&at), None);
    assert!(!exchange.ledger().contains(&at, &key(MINT_A)));
    assert_eq!(take(&mut exchange, Take { taker: signer(TAKER), escrow: at }), Err(SwapError::NotFound));
    assert_eq!(refund(&mut exchange, Refund { maker: signer(MAKER), escrow: at }), Err(SwapError::NotFound));
    assert_eq!(exchange.ledger().total_supply(&key(MINT_A)), 100);
    assert_eq!(exchange.ledger().total_supply(&key(MINT_B)), 50);
}

#[test]
fn take_pays_out_all_the_vault_holds() {
    let (mut exchange, at) = opened();
    assert!(exchange.fund(&at, &key(MINT_A), 7));
    assert!(exchange.fund(&key(TAKER), &key(MINT_A), 1));
    assert!(exchange.fund(&key(TAKER), &key(MINT_B), 5));
    assert!(exchange.fund(&key(MAKER), &key(MINT_B), 2));
    assert_eq!(take(&mut exchange, Take { taker: signer(TAKER), escrow: at }), Ok(()));
    assert_eq!(balance(&exchange, &key(TAKER), MINT_A), 108);
    assert_eq!(balance(&exchange, &key(TAKER), MINT_B), 5);
    assert_eq!(balance(&exchange, &key(MAKER), MINT_B), 52);
}

#[test]
fn take_without_funds_is_refused() {
    let (mut exchange, at) = opened();
    let before = exchange.registry().get(&at);
    assert_eq!(take(&mut exchange, Take { taker: signer(OTHER), escrow: at }), Err(SwapError::InsufficientFunds));
    assert!(exchange.fund(&key(OTHER), &key(MINT_B), 49));
    assert_eq!(take(&mut exchange, Take { taker: signer(OTHER), escrow: at }), Err(SwapError::InsufficientFunds));
    assert_eq!(exchange.registry().get(&at), before);
    assert_eq!(balance(&exchange, &at, MINT_A), 100);
    assert_eq!(balance(&exchange, &key(OTHER), MINT_B), 49);
    assert_eq!(balance(&exchange, &key(MAKER), MINT_B), 0);
    assert!(exchange.fund(&key(OTHER), &key(MINT_B), 1));
    assert_eq!(take(&mut exchange, Take { taker: signer(OTHER), escrow: at }), Ok(()));
}

#[test]
fn take_without_signature_is_unauthorized() {
    let (mut exchange, at) = opened();
    let unsigned = Signer { key: key(TAKER), is_signer: false };
    assert_eq!(take(&mut exchange, Take { taker: unsigned, escrow: at }), Err(SwapError::Unauthorized));
    assert_eq!(take(&mut exchange, Take { taker: unsigned, escrow: key(9) }), Err(SwapError::Unauthorized));
    let itself = Signer { key: at, is_signer: true };
    assert_eq!(take(&mut exchange, Take { taker: itself, escrow: at }), Err(SwapError::Unauthorized));
    assert_eq!(balance(&exchange, &at, MINT_A), 100);
    assert_eq!(balance(&exchange, &key(TAKER), MINT_B), 50);
}

#[test]
fn take_of_no_offer_is_not_found() {
    let (mut exchange, _) = opened();
    let (elsewhere, _) = exchange.registry().derive(&key(MAKER), 2).unwrap();
    assert_eq!(take(&mut exchange, Take { taker: signer(TAKER), escrow: elsewhere }), Err(SwapError::NotFound));
    assert_eq!(take_with(&mut exchange, Take { taker: signer(TAKER), escrow: elsewhere }, true), Err(SwapError::NotFound));
    assert_eq!(balance(&exchange, &key(TAKER), MINT_B), 50);
}

#[test]
fn take_with_needs_the_vaults_signature() {
    let (mut exchange, at) = opened();
    assert_eq!(take_with(&mut exchange, Take { taker: signer(TAKER), escrow: at }, false), Err(SwapError::Unauthorized));
    assert_eq!(balance(&exchange, &key(TAKER), MINT_B), 50);
    assert_eq!(balance(&exchange, &at, MINT_A), 100);
    assert_eq!(take_with(&mut exchange, Take { taker: signer(TAKER), escrow: at }, true), Ok(()));
    assert_eq!(balance(&exchange, &key(TAKER), MINT_A), 100);
}

#[test]
fn the_maker_may_take_the_own_offer() {
    let (mut exchange, at) = opened();
    assert!(exchange.fund(&key(MAKER), &key(MINT_B), 50));
    assert_eq!(take(&mut exchange, Take { taker: signer(MAKER), escrow: at }), Ok(()));
    assert_eq!(balance(&exchange, &key(MAKER), MINT_A), 100);
    assert_eq!(balance(&exchange, &key(MAKER), MINT_B), 50);
}

#[test]
fn an_offer_of_one_mint_for_itself_settles() {
    let mut exchange = exchange();
    assert!(exchange.fund(&key(MAKER), &key(MINT_A), 100));
    assert!(exchange.fund(&key(TAKER), &key(MINT_A), 60));
    let ctx = Make::new(signer(MAKER), key(MINT_A), key(MINT_A));
    assert_eq!(make(&mut exchange, ctx, 1, 100, 50), Ok(()));
    let (at, _) = exchange.registry().derive(&key(MAKER), 1).unwrap();
    assert_eq!(take(&mut exchange, Take { taker: signer(TAKER), escrow: at }), Ok(()));
    assert_eq!(balance(&exchange, &key(TAKER), MINT_A), 110);
    assert_eq!(balance(&exchange, &key(MAKER), MINT_A), 50);
    assert_eq!(exchange.ledger().total_supply(&key(MINT_A)), 160);
}

#[test]
fn an_empty_offer_for_nothing_settles() {
    let mut exchange = exchange();
    assert_eq!(make(&mut exchange, offer(), 1, 0, 0), Ok(()));
    let (at, _) = exchange.registry().derive(&key(MAKER), 1).unwrap();
    assert!(exchange.ledger().contains(&at, &key(MINT_A)));
    assert_eq!(take(&mut exchange, Take { taker: signer(TAKER), escrow: at }), Ok(()));
    assert!(!exchange.ledger().contains(&at, &key(MINT_A)));
    assert_eq!(balance(&exchange, &key(TAKER), MINT_A), 0);
    assert_eq!(exchange.registry().get(&at), None);
}

#[test]
fn refund_returns_the_deposit_and_closes() {
    let (mut exchange, at) = opened();
    assert_eq!(refund(&mut exchange, Refund { maker: signer(MAKER), escrow: at }), Ok(()));
    assert_eq!(balance(&exchange, &key(MAKER), MINT_A), 100);
    assert_eq!(exchange.registry().get(&at), None);
    assert!(!exchange.ledger().contains(&at, &key(MINT_A)));
    assert_eq!(take(&mut exchange, Take { taker: signer(TAKER), escrow: at }), Err(SwapError::NotFound));
    assert_eq!(refund(&mut exchange, Refund { maker: signer(MAKER), escrow: at }), Err(SwapError::NotFound));
    assert_eq!(balance(&exchange, &key(TAKER), MINT_B), 50);
    assert_eq!(make(&mut exchange, offer(), 1, 100, 50), Ok(()));
}

#[test]
fn refund_by_another_is_unauthorized() {
    let (mut exchange, at) = opened();
    let before = exchange.registry().get(&at);
    assert_eq!(refund(&mut exchange, Refund { maker: signer(TAKER), escrow: at }), Err(SwapError::Unauthorized));
    assert_eq!(refund_with(&mut exchange, Refund { maker: signer(OTHER), escrow: at }, true), Err(SwapError::Unauthorized));
    let unsigned = Signer { key: key(MAKER), is_signer: false };
    assert_eq!(refund(&mut exchange, Refund { maker: unsigned, escrow: at }), Err(SwapError::Unauthorized));
    assert_eq!(refund_with(&mut exchange, Refund { maker: signer(MAKER), escrow: at }, false), Err(SwapError::Unauthorized));
    assert_eq!(exchange.registry().get(&at), before);
    assert_eq!(balance(&exchange, &at, MINT_A), 100);
    assert_eq!(balance(&exchange, &key(MAKER), MINT_A), 0);
    assert_eq!(refund_with(&mut exchange, Refund { maker: signer(MAKER), escrow: at }, true), Ok(()));
    assert_eq!(balance(&exchange, &key(MAKER), MINT_A), 100);
}

#[test]
fn refund_of_no_offer_is_not_found() {
    let mut exchange = exchange();
    assert_eq!(refund(&mut exchange, Refund { maker: signer(MAKER), escrow: key(9) }), Err(SwapError::NotFound));
}

#[test]
fn one_maker_runs_several_offers() {
    let mut exchange = exchange();
    assert!(exchange.fund(&key(MAKER), &key(MINT_A), 100));
    assert!(exchange.fund(&key(TAKER), &key(MINT_B), 50));
    assert_eq!(make(&mut exchange, offer(), 1, 60, 30), Ok(()));
    assert_eq!(make(&mut exchange, offer(), 2, 40, 20), Ok(()));
    let (first, _) = exchange.registry().derive(&key(MAKER), 1).unwrap();
    let (second, _) = exchange.registry().derive(&key(MAKER), 2).unwrap();
    assert_eq!(take(&mut exchange, Take { taker: signer(TAKER), escrow: second }), Ok(()));
    assert_eq!(balance(&exchange, &key(TAKER), MINT_A), 40);
    assert_eq!(balance(&exchange, &first, MINT_A), 60);
    assert_eq!(refund(&mut exchange, Refund { maker: signer(MAKER), escrow: first }), Ok(()));
    assert_eq!(balance(&exchange, &key(MAKER), MINT_A), 60);
    assert_eq!(balance(&exchange, &key(MAKER), MINT_B), 20);
    assert_eq!(balance(&exchange, &key(TAKER), MINT_B), 30);
}

#[test]
fn fund_stops_at_what_a_u64_counts() {
    let mut exchange = exchange();
    assert!(exchange.fund(&key(MAKER), &key(MINT_A), u64::MAX));
    assert!(!exchange.fund(&key(TAKER), &key(MINT_A), 1));
    assert_eq!(balance(&exchange, &key(TAKER), MINT_A), 0);
    assert!(exchange.fund(&key(TAKER), &key(MINT_B), u64::MAX));
    assert_eq!(make(&mut exchange, offer(), 1, u64::MAX, u64::MAX), Ok(()));
    let (at, _) = exchange.registry().derive(&key(MAKER), 1).unwrap();
    assert_eq!(take(&mut exchange, Take { taker: signer(TAKER), escrow: at }), Ok(()));
    assert_eq!(balance(&exchange, &key(TAKER), MINT_A), u64::MAX);
    assert_eq!(balance(&exchange, &key(MAKER), MINT_B), u64::MAX);
}
