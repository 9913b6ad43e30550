use crate::address::Address;
use crate::error::SwapError;
use crate::table::{as_map, distinct_keys, has_key, lemma_absent, lemma_push, lemma_remove, lemma_set, lemma_slot, Entry};
use vstd::prelude::*;

verus! {

/// What `owner` holds of `mint`: nothing where there is no such account.
pub open spec fn balance_of(b: Map<(Address, Address), nat>, owner: Address, mint: Address) -> nat {
    if b.contains_key((owner, mint)) {
        b[(owner, mint)]
    } else {
        0
    }
}

/// The balances after `amount` has left the account of `owner`. An owner
/// without an account has nothing to give, and gets no account by it.
pub open spec fn debited(
    b: Map<(Address, Address), nat>,
    owner: Address,
    mint: Address,
    amount: nat,
) -> Map<(Address, Address), nat> {
    if b.contains_key((owner, mint)) {
        b.insert((owner, mint), (b[(owner, mint)] - amount) as nat)
    } else {
        b
    }
}

/// The balances after `amount` has arrived in the account of `owner`, which
/// is opened on arrival where it did not exist.
pub open spec fn credited(
    b: Map<(Address, Address), nat>,
    owner: Address,
    mint: Address,
    amount: nat,
) -> Map<(Address, Address), nat> {
    b.insert((owner, mint), balance_of(b, owner, mint) + amount)
}

/// The balances after `amount` of `mint` has moved from `from` to `to`.
pub open spec fn moved(
    b: Map<(Address, Address), nat>,
    from: Address,
    to: Address,
    mint: Address,
    amount: nat,
) -> Map<(Address, Address), nat> {
    credited(debited(b, from, mint, amount), to, mint, amount)
}

/// Whether a transfer goes through: the authority is checked first, then
/// the paying balance.
pub open spec fn transfer_result(
    b: Map<(Address, Address), nat>,
    from: Address,
    mint: Address,
    amount: nat,
    authorized: bool,
) -> Result<(), SwapError> {
    if !authorized {
        Err(SwapError::Unauthorized)
    } else if balance_of(b, from, mint) < amount {
        Err(SwapError::InsufficientFunds)
    } else {
        Ok(())
    }
}

/// What one account adds to the supply of `mint`.
spec fn share(e: Entry<(Address, Address), u64>, mint: Address) -> nat {
    if e.key.1 == mint {
        e.value as nat
    } else {
        0
    }
}

/// The sum of all balances of `mint`.
spec fn total(s: Seq<Entry<(Address, Address), u64>>, mint: Address) -> nat
    decreases s.len(),
{
    if s.len() == 0 {
        0
    } else {
        total(s.drop_last(), mint) + share(s.last(), mint)
    }
}

proof fn lemma_total_update(
    s: Seq<Entry<(Address, Address), u64>>,
    i: int,
    e: Entry<(Address, Address), u64>,
    mint: Address,
)
    requires
        0 <= i < s.len(),
    ensures
        total(s.update(i, e), mint) + share(s[i], mint) == total(s, mint) + share(e, mint),
    decreases s.len(),
{
    let t = s.update(i, e);
    if i == s.len() - 1 {
        assert(t.drop_last() =~= s.drop_last());
    } else {
        assert(t.drop_last() =~= s.drop_last().update(i, e));
        lemma_total_update(s.drop_last(), i, e, mint);
    }
}

proof fn lemma_total_push(
    s: Seq<Entry<(Address, Address), u64>>,
    e: Entry<(Address, Address), u64>,
    mint: Address,
)
    ensures
        total(s.push(e), mint) == total(s, mint) + share(e, mint),
{
    assert(s.push(e).drop_last() =~= s);
}

proof fn lemma_total_remove(s: Seq<Entry<(Address, Address), u64>>, i: int, mint: Address)
    requires
        0 <= i < s.len(),
    ensures
        total(s.remove(i), mint) + share(s[i], mint) == total(s, mint),
    decreases s.len(),
{
    let t = s.remove(i);
    if i == s.len() - 1 {
        assert(t =~= s.drop_last());
    } else {
        assert(t.drop_last() =~= s.drop_last().remove(i));
        assert(t.last() == s.last());
        lemma_total_remove(s.drop_last(), i, mint);
    }
}

proof fn lemma_total_bounds(s: Seq<Entry<(Address, Address), u64>>, i: int, mint: Address)
    requires
        0 <= i < s.len(),
    ensures
        share(s[i], mint) <= total(s, mint),
    decreases s.len(),
{
    if i < s.len() - 1 {
        lemma_total_bounds(s.drop_last(), i, mint);
    }
}

proof fn lemma_total_prefix(s: Seq<Entry<(Address, Address), u64>>, n: int, mint: Address)
    requires
        0 <= n <= s.len(),
    ensures
        total(s.take(n), mint) <= total(s, mint),
        n < s.len() ==> total(s.take(n + 1), mint) == total(s.take(n), mint) + share(s[n], mint),
    decreases s.len() - n,
{
    if n == s.len() {
        assert(s.take(n) =~= s);
    } else {
        assert(s.take(n + 1).drop_last() =~= s.take(n));
        lemma_total_prefix(s, n + 1, mint);
    }
}

/// The balance of each account of `s`, by owner and mint.
spec fn amounts(s: Seq<Entry<(Address, Address), u64>>) -> Map<(Address, Address), nat> {
    as_map(s).map_values(|v: u64| v as nat)
}

/// The token accounts of every owner, one for each mint the owner holds.
/// No mint's supply exceeds what a `u64` can count.
pub struct Ledger {
    accounts: Vec<Entry<(Address, Address), u64>>,
}

impl View for Ledger {
    type V = Map<(Address, Address), nat>;

    /// The balance of each account, by owner and mint.
    closed spec fn view(&self) -> Map<(Address, Address), nat> {
        amounts(self.accounts@)
    }
}

impl Ledger {
    /// Each owner has at most one account per mint, and each mint's supply
    /// fits in a `u64`.
    pub closed spec fn wf(&self) -> bool {
        &&& distinct_keys(self.accounts@)
        &&& forall|mint: Address| #[trigger] total(self.accounts@, mint) <= u64::MAX
    }

    /// The sum of all balances of `mint`.
    pub closed spec fn supply(&self, mint: Address) -> nat {
        total(self.accounts@, mint)
    }

    /// No balance exceeds its mint's supply, and no supply a `u64`.
    pub proof fn lemma_supply_bounds(&self, owner: Address, mint: Address)
        requires
            self.wf(),
        ensures
            balance_of(self@, owner, mint) <= self.supply(mint) <= u64::MAX,
    {
        if has_key(self.accounts@, (owner, mint)) {
            let i = crate::table::index_of(self.accounts@, (owner, mint));
            lemma_total_bounds(self.accounts@, i, mint);
        }
    }

    /// A ledger without accounts.
    pub fn new() -> (r: Ledger)
        ensures
            r.wf(),
            r@ == Map::<(Address, Address), nat>::empty(),
            forall|mint: Address| r.supply(mint) == 0,
    {
        let r = Ledger { accounts: Vec::new() };
        assert(r@ =~= Map::<(Address, Address), nat>::empty());
        r
    }

    fn find(&self, owner: &Address, mint: &Address) -> (r: Option<usize>)
        requires
            self.wf(),
        ensures
            r matches Some(i) ==> i < self.accounts.len() && self.accounts[i as int].key == (
                *owner,
                *mint,
            ) && self@.contains_key((*owner, *mint)) && self@[(*owner, *mint)]
                == self.accounts[i as int].value,
            r is None ==> !self@.contains_key((*owner, *mint)),
    {
        let mut i: usize = 0;
        while i < self.accounts.len()
            invariant
                self.wf(),
                i <= self.accounts.len(),
                forall|j: int| 0 <= j < i ==> (#[trigger] self.accounts[j]).key != (*owner, *mint),
            decreases self.accounts.len() - i,
        {
            if self.accounts[i].key.0 == *owner && self.accounts[i].key.1 == *mint {
                proof {
                    lemma_slot(self.accounts@, i as int);
                }
                return Some(i);
            }
            i += 1;
        }
        proof {
            lemma_absent(self.accounts@, (*owner, *mint));
        }
        None
    }

    /// Whether `owner` has an account for `mint`.
    pub fn contains(&self, owner: &Address, mint: &Address) -> (r: bool)
        requires
            self.wf(),
        ensures
            r == self@.contains_key((*owner, *mint)),
    {
        self.find(owner, mint).is_some()
    }

    /// What `owner` holds of `mint`.
    pub fn balance(&self, owner: &Address, mint: &Address) -> (r: u64)
        requires
            self.wf(),
        ensures
            r == balance_of(self@, *owner, *mint),
    {
        match self.find(owner, mint) {
            Some(i) => self.accounts[i].value,
            None => 0,
        }
    }

    /// The sum of all balances of `mint`.
    pub fn total_supply(&self, mint: &Address) -> (r: u64)
        requires
            self.wf(),
        ensures
            r == self.supply(*mint),
    {
        let mut sum: u64 = 0;
        let mut i: usize = 0;
        proof {
            lemma_total_prefix(self.accounts@, 0, *mint);
        }
        while i < self.accounts.len()
            invariant
                i <= self.accounts.len(),
                sum == total(self.accounts@.take(i as int), *mint),
                total(self.accounts@, *mint) <= u64::MAX,
            decreases self.accounts.len() - i,
        {
            proof {
                lemma_total_prefix(self.accounts@, i as int, *mint);
                lemma_total_prefix(self.accounts@, i as int + 1, *mint);
            }
            if self.accounts[i].key.1 == *mint {
                sum = sum + self.accounts[i].value;
            }
            i += 1;
        }
        proof {
            assert(self.accounts@.take(i as int) =~= self.accounts@);
        }
        sum
    }

    /// Opens an empty account of `mint` for `owner`, unless there is one.
    pub fn open(&mut self, owner: &Address, mint: &Address) -> (r: bool)
        requires
            old(self).wf(),
        ensures
            final(self).wf(),
            r == !old(self)@.contains_key((*owner, *mint)),
            r ==> final(self)@ == old(self)@.insert((*owner, *mint), 0),
            !r ==> final(self)@ == old(self)@,
            forall|m: Address| final(self).supply(m) == old(self).supply(m),
    {
        if self.find(owner, mint).is_some() {
            return false;
        }
        let e = Entry { key: (*owner, *mint), value: 0u64 };
        proof {
            lemma_push(self.accounts@, e);
            assert forall|m: Address| #[trigger]
                total(self.accounts@.push(e), m) == total(self.accounts@, m) by {
                lemma_total_push(self.accounts@, e, m);
            }
        }
        self.accounts.push(e);
        true
    }

    /// Adds `amount` to the account of `owner`, which is opened where it
    /// did not exist.
    fn deposit(&mut self, owner: &Address, mint: &Address, amount: u64)
        requires
            old(self).wf(),
            old(self).supply(*mint) + amount <= u64::MAX,
        ensures
            final(self).wf(),
            final(self)@ == credited(old(self)@, *owner, *mint, amount as nat),
            final(self).supply(*mint) == old(self).supply(*mint) + amount,
            forall|m: Address| m != *mint ==> final(self).supply(m) == old(self).supply(m),
    {
        let ghost before = self.accounts@;
        match self.find(owner, mint) {
            Some(i) => {
                let had = self.accounts[i].value;
                proof {
                    lemma_total_bounds(before, i as int, *mint);
                }
                let e = Entry { key: (*owner, *mint), value: had + amount };
                proof {
                    lemma_set(before, i as int, e.value);
                    assert forall|m: Address| #[trigger]
                        total(before.update(i as int, e), m) + share(before[i as int], m) == total(
                            before,
                            m,
                        ) + share(e, m) by {
                        lemma_total_update(before, i as int, e, m);
                    }
                }
                self.accounts[i] = e;
            },
            None => {
                let e = Entry { key: (*owner, *mint), value: amount };
                proof {
                    lemma_push(before, e);
                    assert forall|m: Address| #[trigger]
                        total(before.push(e), m) == total(before, m) + share(e, m) by {
                        lemma_total_push(before, e, m);
                    }
                }
                self.accounts.push(e);
            },
        }
    }

    /// Issues `amount` new tokens of `mint` to `owner`, unless the supply
    /// would no longer fit in a `u64`.
    pub fn credit(&mut self, owner: &Address, mint: &Address, amount: u64) -> (r: bool)
        requires
            old(self).wf(),
        ensures
            final(self).wf(),
            r == (old(self).supply(*mint) + amount <= u64::MAX),
            r ==> final(self)@ == credited(old(self)@, *owner, *mint, amount as nat),
            !r ==> final(self)@ == old(self)@,
            r ==> final(self).supply(*mint) == old(self).supply(*mint) + amount,
            !r ==> final(self).supply(*mint) == old(self).supply(*mint),
            forall|m: Address| m != *mint ==> final(self).supply(m) == old(self).supply(m),
    {
        let issued = self.total_supply(mint);
        if amount > u64::MAX - issued {
            return false;
        }
        self.deposit(owner, mint, amount);
        true
    }

    /// Moves `amount` of `mint` from the account of `from` to that of `to`,
    /// all of it or none. `authorized` says whether the authority over the
    /// paying account was shown.
    pub fn transfer(
        &mut self,
        from: &Address,
        to: &Address,
        mint: &Address,
        amount: u64,
        authorized: bool,
    ) -> (r: Result<(), SwapError>)
        requires
            old(self).wf(),
        ensures
            final(self).wf(),
            r == transfer_result(old(self)@, *from, *mint, amount as nat, authorized),
            r is Ok ==> final(self)@ == moved(old(self)@, *from, *to, *mint, amount as nat),
            r is Err ==> final(self)@ == old(self)@,
            forall|m: Address| final(self).supply(m) == old(self).supply(m),
    {
        if !authorized {
            return Err(SwapError::Unauthorized);
        }
        let ghost before = self.accounts@;
        match self.find(from, mint) {
            Some(i) => {
                let had = self.accounts[i].value;
                if had < amount {
                    return Err(SwapError::InsufficientFunds);
                }
                let e = Entry { key: (*from, *mint), value: had - amount };
                proof {
                    lemma_set(before, i as int, e.value);
                    assert forall|m: Address| #[trigger]
                        total(before.update(i as int, e), m) + share(before[i as int], m) == total(
                            before,
                            m,
                        ) + share(e, m) by {
                        lemma_total_update(before, i as int, e, m);
                    }
                }
                self.accounts[i] = e;
            },
            None => {
                if amount > 0 {
                    return Err(SwapError::InsufficientFunds);
                }
            },
        }
        self.deposit(to, mint, amount);
        Ok(())
    }

    /// Closes the account of `owner` for `mint`, if it exists and is empty.
    pub fn close(&mut self, owner: &Address, mint: &Address) -> (r: bool)
        requires
            old(self).wf(),
        ensures
            final(self).wf(),
            r == (old(self)@.contains_key((*owner, *mint)) && old(self)@[(*owner, *mint)] == 0),
            r ==> final(self)@ == old(self)@.remove((*owner, *mint)),
            !r ==> final(self)@ == old(self)@,
            forall|m: Address| final(self).supply(m) == old(self).supply(m),
    {
        let ghost before = self.accounts@;
        match self.find(owner, mint) {
            Some(i) => {
                if self.accounts[i].value != 0 {
                    return false;
                }
                proof {
                    lemma_remove(before, i as int);
                    assert forall|m: Address| #[trigger]
                        total(before.remove(i as int), m) + share(before[i as int], m) == total(
                            before,
                            m,
                        ) by {
                        lemma_total_remove(before, i as int, m);
                    }
                }
                let _ = self.accounts.remove(i);
                true
            },
            None => false,
        }
    }
}

} // verus!
