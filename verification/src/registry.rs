use crate::address::{creates, find, find_address, seed_views, Address};
use crate::state::{escrow_address, escrow_seeds, seeds_of, Escrow};
use crate::table::{as_map, distinct_keys, lemma_absent, lemma_push, lemma_remove, lemma_slot, Entry};
use vstd::prelude::*;

verus! {

/// The address of the program under which token accounts are derived:
/// `ATokenGPvbdGVxr1b2hvZbsiqW5xWH25efTNsLJA8knL`, read in base 58.
pub open spec fn associated_token_program_bytes() -> Seq<u8> {
    seq![
        140u8, 151u8, 37u8, 143u8, 78u8, 36u8, 137u8, 241u8, 187u8, 61u8, 16u8, 41u8, 20u8, 142u8,
        13u8, 131u8, 11u8, 90u8, 19u8, 153u8, 218u8, 255u8, 16u8, 132u8, 4u8, 142u8, 123u8, 216u8,
        219u8, 233u8, 248u8, 89u8,
    ]
}

/// Calls `spl_associated_token_account::id`, which anchor_spl hands on.
/// Trusted: it returns the address that the crate declares as its own, the
/// bytes above.
#[verifier::external_body]
fn associated_token_program_id() -> (r: Address)
    ensures
        r@ == associated_token_program_bytes(),
{
    Address { bytes: anchor_spl::associated_token::spl_associated_token_account::id().to_bytes() }
}

/// The seeds of the address of the token account that `owner` holds for
/// `mint` under `token_program`.
pub open spec fn vault_seeds(owner: Address, token_program: Address, mint: Address) -> Seq<Seq<u8>> {
    seq![owner@, token_program@, mint@]
}

/// The address of the token account that `owner` holds for `mint`, where
/// the search finds one.
pub open spec fn vault_address(
    associated_token_program: Address,
    token_program: Address,
    owner: Address,
    mint: Address,
) -> Option<Address> {
    match find_address(vault_seeds(owner, token_program, mint), associated_token_program) {
        Some((address, _)) => Some(address),
        None => None,
    }
}

/// The record at `address`, if one lives there.
pub open spec fn record_at(records: Map<Address, Escrow>, address: Address) -> Option<Escrow> {
    if records.contains_key(address) {
        Some(records[address])
    } else {
        None
    }
}

/// The live escrow records of one program, each under its derived address.
pub struct EscrowRegistry {
    program_id: Address,
    token_program: Address,
    associated_token_program: Address,
    slots: Vec<Entry<Address, Escrow>>,
}

impl View for EscrowRegistry {
    type V = Map<Address, Escrow>;

    /// The record at each address that holds one.
    closed spec fn view(&self) -> Map<Address, Escrow> {
        as_map(self.slots@)
    }
}

impl EscrowRegistry {
    /// No address holds two records.
    pub closed spec fn wf(&self) -> bool {
        distinct_keys(self.slots@)
    }

    /// The program whose records these are.
    pub closed spec fn program(&self) -> Address {
        self.program_id
    }

    /// The token program under which vaults are held.
    pub closed spec fn tokens(&self) -> Address {
        self.token_program
    }

    /// The program under which vault addresses are derived.
    pub closed spec fn associated_tokens(&self) -> Address {
        self.associated_token_program
    }

    /// An empty registry for the records of `program_id`, with vaults held
    /// under `token_program`.
    pub fn new(program_id: Address, token_program: Address) -> (r: EscrowRegistry)
        ensures
            r.wf(),
            r@ == Map::<Address, Escrow>::empty(),
            r.program() == program_id,
            r.tokens() == token_program,
            r.associated_tokens()@ == associated_token_program_bytes(),
    {
        let r = EscrowRegistry {
            program_id,
            token_program,
            associated_token_program: associated_token_program_id(),
            slots: Vec::new(),
        };
        assert(r@ =~= Map::<Address, Escrow>::empty());
        r
    }

    /// The program whose records these are.
    pub fn program_id(&self) -> (r: Address)
        ensures
            r == self.program(),
    {
        self.program_id
    }

    /// The token program under which vaults are held.
    pub fn token_program(&self) -> (r: Address)
        ensures
            r == self.tokens(),
    {
        self.token_program
    }

    /// The program under which vault addresses are derived.
    pub fn associated_token_program(&self) -> (r: Address)
        ensures
            r == self.associated_tokens(),
    {
        self.associated_token_program
    }

    /// The address of the record that `maker` opens under `seed`, and its
    /// bump seed. The same maker and seed always give the same answer. A
    /// record built on the answer owns the address.
    pub fn derive(&self, maker: &Address, seed: u64) -> (r: Option<(Address, u8)>)
        ensures
            r == escrow_address(self.program(), *maker, seed),
            r matches Some((address, bump)) ==> creates(
                escrow_seeds(*maker, seed).push(seq![bump]),
                self.program(),
                address,
            ),
    {
        let seeds = seeds_of(maker, seed);
        find(&seeds, &self.program_id)
    }

    /// The address of the vault that the record at `escrow` holds for
    /// `asset_a`. The same record and asset always give the same answer.
    pub fn derive_vault(&self, escrow: &Address, asset_a: &Address) -> (r: Option<Address>)
        ensures
            r == vault_address(self.associated_tokens(), self.tokens(), *escrow, *asset_a),
    {
        let mut seeds: Vec<Vec<u8>> = Vec::new();
        seeds.push(escrow.to_vec());
        seeds.push(self.token_program.to_vec());
        seeds.push(asset_a.to_vec());
        assert(seed_views(seeds@) =~= vault_seeds(*escrow, self.token_program, *asset_a));
        match find(&seeds, &self.associated_token_program) {
            Some((address, _)) => Some(address),
            None => None,
        }
    }

    fn position(&self, address: &Address) -> (r: Option<usize>)
        requires
            self.wf(),
        ensures
            r matches Some(i) ==> i < self.slots.len() && self.slots[i as int].key == *address
                && self@.contains_key(*address) && self@[*address] == self.slots[i as int].value,
            r is None ==> !self@.contains_key(*address),
    {
        let mut i: usize = 0;
        while i < self.slots.len()
            invariant
                self.wf(),
                i <= self.slots.len(),
                forall|j: int| 0 <= j < i ==> (#[trigger] self.slots[j]).key != *address,
            decreases self.slots.len() - i,
        {
            if self.slots[i].key == *address {
                proof {
                    lemma_slot(self.slots@, i as int);
                }
                return Some(i);
            }
            i += 1;
        }
        proof {
            lemma_absent(self.slots@, *address);
        }
        None
    }

    /// Whether a record lives at `address`.
    pub fn contains(&self, address: &Address) -> (r: bool)
        requires
            self.wf(),
        ensures
            r == self@.contains_key(*address),
    {
        self.position(address).is_some()
    }

    /// The record at `address`, if one lives there.
    pub fn get(&self, address: &Address) -> (r: Option<Escrow>)
        requires
            self.wf(),
        ensures
            r == record_at(self@, *address),
    {
        match self.position(address) {
            Some(i) => Some(self.slots[i].value),
            None => None,
        }
    }

    /// Puts `escrow` at `address`, unless a record lives there already.
    pub fn create(&mut self, address: &Address, escrow: Escrow) -> (r: bool)
        requires
            old(self).wf(),
        ensures
            final(self).wf(),
            r == !old(self)@.contains_key(*address),
            r ==> final(self)@ == old(self)@.insert(*address, escrow),
            !r ==> final(self)@ == old(self)@,
            final(self).program() == old(self).program(),
            final(self).tokens() == old(self).tokens(),
            final(self).associated_tokens() == old(self).associated_tokens(),
    {
        if self.position(address).is_some() {
            return false;
        }
        let e = Entry { key: *address, value: escrow };
        proof {
            lemma_push(self.slots@, e);
        }
        self.slots.push(e);
        true
    }

    /// Takes the record at `address` out, if one lives there, and hands it
    /// back.
    pub fn destroy(&mut self, address: &Address) -> (r: Option<Escrow>)
        requires
            old(self).wf(),
        ensures
            final(self).wf(),
            r == record_at(old(self)@, *address),
            final(self)@ == old(self)@.remove(*address),
            final(self).program() == old(self).program(),
            final(self).tokens() == old(self).tokens(),
            final(self).associated_tokens() == old(self).associated_tokens(),
    {
        match self.position(address) {
            Some(i) => {
                proof {
                    lemma_remove(self.slots@, i as int);
                }
                let e = self.slots.remove(i);
                Some(e.value)
            },
            None => {
                assert(self@.remove(*address) =~= self@);
                None
            },
        }
    }
}

} // verus!
