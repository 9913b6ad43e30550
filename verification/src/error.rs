use vstd::prelude::*;

verus! {

/// Why an operation was rejected. A rejected operation changes nothing.
#[derive(Clone, Copy, Debug, PartialEq, Eq, Structural)]
pub enum SwapError {
    /// The caller's proof of authority is missing, or the caller is not the
    /// party the record names.
    Unauthorized,
    /// No escrow record lives at the address that was named.
    NotFound,
    /// An escrow record or a vault already lives at the derived address.
    AlreadyExists,
    /// The paying account holds less than the amount to move.
    InsufficientFunds,
}

} // verus!
