use anchor_lang::prelude::Pubkey;
use anchor_lang::solana_program::pubkey::PubkeyError;
use vstd::prelude::*;
use vstd::std_specs::cmp::PartialEqSpecImpl;

verus! {

/// The address of an account: thirty-two bytes.
#[derive(Clone, Copy, Debug)]
pub struct Address {
    pub bytes: [u8; 32],
}

impl View for Address {
    type V = Seq<u8>;

    open spec fn view(&self) -> Seq<u8> {
        self.bytes@
    }
}

impl PartialEq for Address {
    /// Two addresses are equal where all their bytes are.
    fn eq(&self, other: &Address) -> (r: bool) {
        let mut i: usize = 0;
        while i < 32
            invariant
                i <= 32,
                forall|j: int| 0 <= j < i ==> self.bytes[j] == other.bytes[j],
            decreases 32 - i,
        {
            if self.bytes[i] != other.bytes[i] {
                return false;
            }
            i += 1;
        }
        proof {
            assert(self.bytes =~= other.bytes);
        }
        true
    }
}

impl Eq for Address {}

impl PartialEqSpecImpl for Address {
    open spec fn obeys_eq_spec() -> bool {
        true
    }

    open spec fn eq_spec(&self, other: &Address) -> bool {
        *self == *other
    }
}

impl Address {
    /// The address as a seed: its thirty-two bytes.
    pub fn to_vec(&self) -> (r: Vec<u8>)
        ensures
            r@ == self@,
    {
        let mut r: Vec<u8> = Vec::new();
        let mut i: usize = 0;
        while i < 32
            invariant
                i <= 32,
                r@.len() == i,
                forall|j: int| 0 <= j < i ==> r@[j] == self.bytes[j],
            decreases 32 - i,
        {
            r.push(self.bytes[i]);
            i += 1;
        }
        assert(r@ =~= self@);
        r
    }
}

/// The address whose bytes are `s`.
pub open spec fn address_of(s: Seq<u8>) -> Address {
    choose|a: Address| a@ == s
}

/// An address is the address of its own bytes, of which it has thirty-two.
pub proof fn lemma_address_of(a: Address)
    ensures
        address_of(a@) == a,
        a@.len() == 32,
{
    let b = address_of(a@);
    assert(b@ == a@);
    assert(b.bytes =~= a.bytes) by {
        assert forall|i: int| 0 <= i < 32 implies b.bytes[i] == a.bytes[i] by {
            assert(b@[i] == a@[i]);
        }
    }
}

/// The seeds of a derivation, each as the bytes it holds.
pub open spec fn seed_views(seeds: Seq<Vec<u8>>) -> Seq<Seq<u8>> {
    Seq::new(seeds.len(), |i: int| seeds[i]@)
}

/// What `Pubkey::try_find_program_address` returns for these seeds under
/// this program: the first address off the curve, searching bump seeds
/// from 255 downwards, with the bump seed that gave it; or nothing.
pub uninterp spec fn found_address(seeds: Seq<Seq<u8>>, program: Seq<u8>) -> Option<(Seq<u8>, u8)>;

/// What `Pubkey::create_program_address` returns for these seeds under this
/// program: the address they hash to, where there are at most sixteen seeds
/// of at most thirty-two bytes each and the hash lies off the curve.
pub uninterp spec fn created_address(seeds: Seq<Seq<u8>>, program: Seq<u8>) -> Option<Seq<u8>>;

#[verifier::external_type_specification]
#[verifier::external_body]
pub struct ExPubkeyError(PubkeyError);

/// Calls `Pubkey::try_find_program_address`. Trusted: the result is the
/// named search result for the same seeds and program, and an address that
/// was found is the one that `Pubkey::create_program_address` gives for the
/// seeds followed by the one-byte bump seed, which is how the search finds
/// it.
#[verifier::external_body]
pub(crate) fn try_find_program_address(seeds: &Vec<Vec<u8>>, program: &Address) -> (r: Option<
    (Address, u8),
>)
    ensures
        r is Some <==> found_address(seed_views(seeds@), program@) is Some,
        r matches Some((a, b)) ==> found_address(seed_views(seeds@), program@) == Some((a@, b)),
        r matches Some((a, b)) ==> created_address(
            seed_views(seeds@).push(seq![b]),
            program@,
        ) == Some(a@),
{
    let parts: Vec<&[u8]> = seeds.iter().map(|s| s.as_slice()).collect();
    Pubkey::try_find_program_address(&parts, &Pubkey::new_from_array(program.bytes)).map(
        |(key, bump)| (Address { bytes: key.to_bytes() }, bump),
    )
}

/// Calls `Pubkey::create_program_address`. Trusted: the result is the named
/// result for the same seeds and program.
#[verifier::external_body]
pub(crate) fn create_program_address(seeds: &Vec<Vec<u8>>, program: &Address) -> (r: Result<
    Address,
    PubkeyError,
>)
    ensures
        r is Ok <==> created_address(seed_views(seeds@), program@) is Some,
        r matches Ok(a) ==> created_address(seed_views(seeds@), program@) == Some(a@),
{
    let parts: Vec<&[u8]> = seeds.iter().map(|s| s.as_slice()).collect();
    Pubkey::create_program_address(&parts, &Pubkey::new_from_array(program.bytes)).map(
        |key| Address { bytes: key.to_bytes() },
    )
}

/// The address and bump seed found for `seeds` under `program`, if any.
pub open spec fn find_address(seeds: Seq<Seq<u8>>, program: Address) -> Option<(Address, u8)> {
    match found_address(seeds, program@) {
        Some((s, b)) => Some((address_of(s), b)),
        None => None,
    }
}

/// Whether `seeds` hash to `address` under `program`.
pub open spec fn creates(seeds: Seq<Seq<u8>>, program: Address, address: Address) -> bool {
    created_address(seeds, program@) == Some(address@)
}

/// Searches for the address that `seeds` derive under `program`.
pub fn find(seeds: &Vec<Vec<u8>>, program: &Address) -> (r: Option<(Address, u8)>)
    ensures
        r == find_address(seed_views(seeds@), *program),
        r matches Some((a, b)) ==> creates(seed_views(seeds@).push(seq![b]), *program, a),
{
    let r = try_find_program_address(seeds, program);
    proof {
        if let Some((a, b)) = r {
            lemma_address_of(a);
        }
    }
    r
}

/// Whether `seeds` hash to `address` under `program`.
pub fn derives(seeds: &Vec<Vec<u8>>, program: &Address, address: &Address) -> (r: bool)
    ensures
        r == creates(seed_views(seeds@), *program, *address),
{
    match create_program_address(seeds, program) {
        Ok(a) => {
            proof {
                lemma_address_of(a);
                lemma_address_of(*address);
            }
            a == *address
        },
        Err(_) => false,
    }
}

} // verus!
