use crate::address::Address;
use crate::contexts::Signer;
use crate::error::SwapError;
use crate::state::Escrow;
use vstd::prelude::*;

verus! {

/// Whether an offer may be opened. `derived` is what the search for the
/// offer's address gave, `occupied` whether a record or a vault stands at
/// that address already, and `funds` what the maker holds of the mint to
/// deposit. The checks come in this order: the maker's signature; that an
/// address was found; that it is not the maker's own, for which nobody can
/// sign; that it is free; that the funds cover the deposit.
pub open spec fn make_rule(
    maker: Signer,
    derived: Option<(Address, u8)>,
    occupied: bool,
    funds: nat,
    deposit: nat,
) -> Result<(), SwapError> {
    if !maker.is_signer {
        Err(SwapError::Unauthorized)
    } else {
        match derived {
            None => Err(SwapError::NotFound),
            Some((address, _)) => {
                if address == maker.key {
                    Err(SwapError::Unauthorized)
                } else if occupied {
                    Err(SwapError::AlreadyExists)
                } else if funds < deposit {
                    Err(SwapError::InsufficientFunds)
                } else {
                    Ok(())
                }
            },
        }
    }
}

/// Whether the offer at `at` may be filled. `record` is the record that
/// lives there, if any, `funds` what the taker holds of the mint the record
/// asks for, and `vault_signed` whether the record can sign for its vault.
/// The checks come in this order: the taker's signature, which the
/// record's own address cannot give; the record; the taker's funds; the
/// record's authority over its vault.
pub open spec fn take_rule(
    taker: Signer,
    at: Address,
    record: Option<Escrow>,
    funds: nat,
    vault_signed: bool,
) -> Result<(), SwapError> {
    if !taker.is_signer || taker.key == at {
        Err(SwapError::Unauthorized)
    } else {
        match record {
            None => Err(SwapError::NotFound),
            Some(escrow) => {
                if funds < escrow.receive {
                    Err(SwapError::InsufficientFunds)
                } else if !vault_signed {
                    Err(SwapError::Unauthorized)
                } else {
                    Ok(())
                }
            },
        }
    }
}

/// Whether an offer may be taken back. `record` is the record at the
/// address that was named, if any, and `vault_signed` whether it can sign
/// for its vault. The checks come in this order: the caller's signature; the
/// record; that the caller is the maker the record names; the record's
/// authority over its vault.
pub open spec fn refund_rule(caller: Signer, record: Option<Escrow>, vault_signed: bool) -> Result<
    (),
    SwapError,
> {
    if !caller.is_signer {
        Err(SwapError::Unauthorized)
    } else {
        match record {
            None => Err(SwapError::NotFound),
            Some(escrow) => {
                if caller.key != escrow.maker || !vault_signed {
                    Err(SwapError::Unauthorized)
                } else {
                    Ok(())
                }
            },
        }
    }
}

/// Decides whether an offer may be opened.
pub fn check_make(
    maker: &Signer,
    derived: &Option<(Address, u8)>,
    occupied: bool,
    funds: u64,
    deposit: u64,
) -> (r: Result<(), SwapError>)
    ensures
        r == make_rule(*maker, *derived, occupied, funds as nat, deposit as nat),
{
    if !maker.is_signer {
        return Err(SwapError::Unauthorized);
    }
    match derived {
        None => Err(SwapError::NotFound),
        Some((address, _)) => {
            if *address == maker.key {
                Err(SwapError::Unauthorized)
            } else if occupied {
                Err(SwapError::AlreadyExists)
            } else if funds < deposit {
                Err(SwapError::InsufficientFunds)
            } else {
                Ok(())
            }
        },
    }
}

/// Decides whether the offer at `at` may be filled.
pub fn check_take(
    taker: &Signer,
    at: &Address,
    record: &Option<Escrow>,
    funds: u64,
    vault_signed: bool,
) -> (r: Result<(), SwapError>)
    ensures
        r == take_rule(*taker, *at, *record, funds as nat, vault_signed),
{
    if !taker.is_signer || taker.key == *at {
        return Err(SwapError::Unauthorized);
    }
    match record {
        None => Err(SwapError::NotFound),
        Some(escrow) => {
            if funds < escrow.receive {
                Err(SwapError::InsufficientFunds)
            } else if !vault_signed {
                Err(SwapError::Unauthorized)
            } else {
                Ok(())
            }
        },
    }
}

/// Decides whether an offer may be taken back.
pub fn check_refund(caller: &Signer, record: &Option<Escrow>, vault_signed: bool) -> (r: Result<
    (),
    SwapError,
>)
    ensures
        r == refund_rule(*caller, *record, vault_signed),
{
    if !caller.is_signer {
        return Err(SwapError::Unauthorized);
    }
    match record {
        None => Err(SwapError::NotFound),
        Some(escrow) => {
            if caller.key != escrow.maker || !vault_signed {
                Err(SwapError::Unauthorized)
            } else {
                Ok(())
            }
        },
    }
}

} // verus!
