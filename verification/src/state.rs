use crate::address::{creates, find_address, seed_views, Address};
use vstd::bytes::{spec_u64_to_le_bytes, u64_to_le_bytes};
use vstd::prelude::*;

verus! {

/// One maker's pending offer: what was deposited, what is wanted in
/// return, and what is needed to derive the record's own address again.
#[derive(Clone, Copy, Debug, PartialEq, Eq)]
pub struct Escrow {
    /// Chosen by the maker; tells the maker's offers apart.
    pub seed: u64,
    /// Who made the offer, and alone may take it back.
    pub maker: Address,
    /// The mint of what the vault holds.
    pub mint_a: Address,
    /// The mint of what the maker wants.
    pub mint_b: Address,
    /// How much of `mint_b` unlocks the vault.
    pub receive: u64,
    /// The bump seed that was found with the record's address.
    pub bump: u8,
}

/// The bytes of `b"escrow"`, the first seed of every record's address.
pub open spec fn escrow_tag() -> Seq<u8> {
    seq![101u8, 115u8, 99u8, 114u8, 111u8, 119u8]
}

/// The seeds of the address of the record that `maker` opens under `seed`:
/// the tag, the maker's address, and the seed in little-endian bytes.
pub open spec fn escrow_seeds(maker: Address, seed: u64) -> Seq<Seq<u8>> {
    seq![escrow_tag(), maker@, spec_u64_to_le_bytes(seed)]
}

/// The address of the record that `maker` opens under `seed`, with its bump
/// seed, where the search finds one.
pub open spec fn escrow_address(program: Address, maker: Address, seed: u64) -> Option<
    (Address, u8),
> {
    find_address(escrow_seeds(maker, seed), program)
}

/// The seeds of `escrow_seeds`, as bytes to hand to the search.
pub fn seeds_of(maker: &Address, seed: u64) -> (r: Vec<Vec<u8>>)
    ensures
        seed_views(r@) == escrow_seeds(*maker, seed),
{
    let mut tag: Vec<u8> = Vec::new();
    tag.push(101u8);
    tag.push(115u8);
    tag.push(99u8);
    tag.push(114u8);
    tag.push(111u8);
    tag.push(119u8);
    assert(tag@ =~= escrow_tag());
    let mut r: Vec<Vec<u8>> = Vec::new();
    r.push(tag);
    r.push(maker.to_vec());
    r.push(u64_to_le_bytes(seed));
    assert(seed_views(r@) =~= escrow_seeds(*maker, seed));
    r
}

impl Escrow {
    /// The seeds by which the record shows that an address is its own: those
    /// of its address, followed by its bump seed.
    pub open spec fn signer_seeds(self) -> Seq<Seq<u8>> {
        escrow_seeds(self.maker, self.seed).push(seq![self.bump])
    }

    /// Whether the record's seeds hash to `address` under `program`, so that
    /// the record can stand for that address.
    pub open spec fn owns(self, program: Address, address: Address) -> bool {
        creates(self.signer_seeds(), program, address)
    }

    /// The seeds of `signer_seeds`, as bytes to hand on as a proof.
    pub fn signing_seeds(&self) -> (r: Vec<Vec<u8>>)
        ensures
            seed_views(r@) == self.signer_seeds(),
    {
        let mut r = seeds_of(&self.maker, self.seed);
        let mut bump: Vec<u8> = Vec::new();
        bump.push(self.bump);
        assert(bump@ =~= seq![self.bump]);
        let ghost before = r@;
        r.push(bump);
        assert(seed_views(r@) =~= seed_views(before).push(seq![self.bump]));
        r
    }
}

} // verus!
