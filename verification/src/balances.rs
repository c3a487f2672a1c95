//! The account-balance store of the model ledger: a key-unique association
//! list viewed as a map from account to balance, with absent accounts read
//! as zero.

use vstd::prelude::*;

verus! {

/// Free and frozen funds of one account.
#[derive(Clone, Copy, Debug, PartialEq, Eq, Structural)]
pub struct AccountBalance {
    pub free: u128,
    pub frozen: u128,
}

/// The balance store: one entry per account.
pub struct BalanceStore {
    entries: Vec<(u64, u128)>,
}

/// The map an entry list stands for.
pub open spec fn map_of_entries(s: Seq<(u64, u128)>) -> Map<u64, u128>
    decreases s.len(),
{
    if s.len() == 0 {
        Map::empty()
    } else {
        map_of_entries(s.drop_last()).insert(s.last().0, s.last().1)
    }
}

/// No two entries share a key.
pub open spec fn entries_unique(s: Seq<(u64, u128)>) -> bool {
    forall|i: int, j: int| 0 <= i < j < s.len() ==> (#[trigger] s[i]).0 != (#[trigger] s[j]).0
}

/// The balance an account holds under a map: zero when absent.
pub open spec fn balance_of(m: Map<u64, u128>, account: u64) -> u128 {
    if m.dom().contains(account) {
        m[account]
    } else {
        0
    }
}

proof fn lemma_map_of_entries_props(s: Seq<(u64, u128)>)
    ensures
        forall|k: u64|
            #[trigger] map_of_entries(s).dom().contains(k) <==> exists|i: int|
                0 <= i < s.len() && (#[trigger] s[i]).0 == k,
    decreases s.len(),
{
    if s.len() > 0 {
        lemma_map_of_entries_props(s.drop_last());
        assert forall|k: u64| #[trigger] map_of_entries(s).dom().contains(k) implies exists|i: int|
            0 <= i < s.len() && (#[trigger] s[i]).0 == k by {
            if k == s.last().0 {
                assert(s[s.len() - 1].0 == k);
            } else {
                assert(map_of_entries(s.drop_last()).dom().contains(k));
                let i = choose|i: int|
                    0 <= i < s.drop_last().len() && (#[trigger] s.drop_last()[i]).0 == k;
                assert(s.drop_last()[i] == s[i]);
                assert(s[i].0 == k);
            }
        }
        assert forall|k: u64|
            (exists|i: int| 0 <= i < s.len() && (#[trigger] s[i]).0 == k) implies map_of_entries(
            s,
        ).dom().contains(k) by {
            let i = choose|i: int| 0 <= i < s.len() && (#[trigger] s[i]).0 == k;
            if i < s.len() - 1 {
                assert(s.drop_last()[i].0 == k);
                assert(map_of_entries(s.drop_last()).dom().contains(k));
            } else {
                assert(k == s.last().0);
            }
        }
    }
}

proof fn lemma_map_of_entries_lookup(s: Seq<(u64, u128)>, i: int)
    requires
        entries_unique(s),
        0 <= i < s.len(),
    ensures
        map_of_entries(s).dom().contains(s[i].0),
        map_of_entries(s)[s[i].0] == s[i].1,
    decreases s.len(),
{
    if i == s.len() - 1 {
    } else {
        assert(s.drop_last()[i] == s[i]);
        lemma_map_of_entries_lookup(s.drop_last(), i);
        assert(s[s.len() - 1].0 != s[i].0);
    }
}

impl View for BalanceStore {
    type V = Map<u64, u128>;

    closed spec fn view(&self) -> Map<u64, u128> {
        map_of_entries(self.entries@)
    }
}

impl BalanceStore {
    /// The store's structural invariant: keys are unique.
    pub closed spec fn wf(&self) -> bool {
        entries_unique(self.entries@)
    }

    /// An empty store.
    pub fn new() -> (r: Self)
        ensures
            r.wf(),
            r@ == Map::<u64, u128>::empty(),
    {
        BalanceStore { entries: Vec::new() }
    }

    /// The free balance of `account`; zero when the account is unknown.
    pub fn get(&self, account: u64) -> (r: u128)
        requires
            self.wf(),
        ensures
            r == balance_of(self@, account),
    {
        proof {
            lemma_map_of_entries_props(self.entries@);
        }
        let mut i: usize = 0;
        while i < self.entries.len()
            invariant
                self.wf(),
                i <= self.entries@.len(),
                forall|j: int| 0 <= j < i ==> (#[trigger] self.entries@[j]).0 != account,
            decreases self.entries@.len() - i,
        {
            if self.entries[i].0 == account {
                proof {
                    lemma_map_of_entries_lookup(self.entries@, i as int);
                }
                return self.entries[i].1;
            }
            i = i + 1;
        }
        proof {
            lemma_map_of_entries_props(self.entries@);
            if self@.dom().contains(account) {
                let j = choose|j: int|
                    0 <= j < self.entries@.len() && (#[trigger] self.entries@[j]).0 == account;
                assert(false);
            }
        }
        0
    }

    /// Sets the balance of `account` to `value`.
    pub fn set(&mut self, account: u64, value: u128)
        requires
            old(self).wf(),
        ensures
            final(self).wf(),
            final(self)@ == old(self)@.insert(account, value),
    {
        let ghost orig = self.entries@;
        let mut i: usize = 0;
        while i < self.entries.len()
            invariant
                entries_unique(orig),
                orig == old(self).entries@,
                self.entries@ == orig,
                i <= orig.len(),
                forall|j: int| 0 <= j < i ==> (#[trigger] orig[j]).0 != account,
            decreases orig.len() - i,
        {
            if self.entries[i].0 == account {
                self.entries.set(i, (account, value));
                proof {
                    lemma_set_entry(orig, i as int, value);
                }
                return ;
            }
            i = i + 1;
        }
        self.entries.push((account, value));
        proof {
            assert(self.entries@.drop_last() =~= orig);
            assert(forall|j: int|
                0 <= j < orig.len() ==> (#[trigger] self.entries@[j]) == orig[j]);
            assert(entries_unique(self.entries@));
        }
    }

    /// Raises the balance of `account` by `amount`, capped at the largest
    /// representable balance.
    pub fn credit(&mut self, account: u64, amount: u128)
        requires
            old(self).wf(),
        ensures
            final(self).wf(),
            final(self)@ == old(self)@.insert(
                account,
                sat_add128(balance_of(old(self)@, account), amount),
            ),
    {
        let current = self.get(account);
        let updated = if u128::MAX - current < amount {
            u128::MAX
        } else {
            current + amount
        };
        self.set(account, updated);
    }

    /// Lowers the balance of `account` by `amount`, stopping at zero.
    pub fn debit(&mut self, account: u64, amount: u128)
        requires
            old(self).wf(),
        ensures
            final(self).wf(),
            final(self)@ == old(self)@.insert(
                account,
                sat_sub128(balance_of(old(self)@, account), amount),
            ),
    {
        let current = self.get(account);
        let updated = if current < amount {
            0
        } else {
            current - amount
        };
        self.set(account, updated);
    }

    /// Copies the store.
    pub fn duplicate(&self) -> (r: Self)
        requires
            self.wf(),
        ensures
            r.wf(),
            r@ == self@,
    {
        let mut entries: Vec<(u64, u128)> = Vec::new();
        let mut i: usize = 0;
        while i < self.entries.len()
            invariant
                i <= self.entries@.len(),
                entries@ == self.entries@.subrange(0, i as int),
            decreases self.entries@.len() - i,
        {
            entries.push(self.entries[i]);
            proof {
                assert(entries@ =~= self.entries@.subrange(0, i + 1));
            }
            i = i + 1;
        }
        proof {
            assert(entries@ =~= self.entries@);
        }
        BalanceStore { entries }
    }
}

proof fn lemma_set_entry(s: Seq<(u64, u128)>, i: int, value: u128)
    requires
        entries_unique(s),
        0 <= i < s.len(),
    ensures
        entries_unique(s.update(i, (s[i].0, value))),
        map_of_entries(s.update(i, (s[i].0, value))) == map_of_entries(s).insert(s[i].0, value),
    decreases s.len(),
{
    let t = s.update(i, (s[i].0, value));
    assert forall|a: int, b: int| 0 <= a < b < t.len() implies (#[trigger] t[a]).0 != (
    #[trigger] t[b]).0 by {
        assert(s[a].0 != s[b].0);
    }
    if i == s.len() - 1 {
        assert(t.drop_last() =~= s.drop_last());
        assert(map_of_entries(t) == map_of_entries(s.drop_last()).insert(s[i].0, value));
        assert(map_of_entries(s).insert(s[i].0, value) =~= map_of_entries(s.drop_last()).insert(
            s[i].0,
            value,
        ));
    } else {
        assert(t.drop_last() =~= s.drop_last().update(i, (s[i].0, value)));
        assert(s.drop_last()[i] == s[i]);
        lemma_set_entry(s.drop_last(), i, value);
        assert(map_of_entries(t) == map_of_entries(s.drop_last()).insert(s[i].0, value).insert(
            s.last().0,
            s.last().1,
        ));
        assert(s.last().0 != s[i].0);
        assert(map_of_entries(s.drop_last()).insert(s[i].0, value).insert(s.last().0, s.last().1)
            =~= map_of_entries(s.drop_last()).insert(s.last().0, s.last().1).insert(s[i].0, value));
    }
}

/// Addition on balances, capped at the largest representable value.
pub open spec fn sat_add128(a: u128, b: u128) -> u128 {
    if a + b > u128::MAX {
        u128::MAX
    } else {
        (a + b) as u128
    }
}

/// Subtraction on balances, stopping at zero.
pub open spec fn sat_sub128(a: u128, b: u128) -> u128 {
    if a < b {
        0
    } else {
        (a - b) as u128
    }
}

} // verus!
