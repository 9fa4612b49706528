//! Per-participant balances: the sum of a finite map of amounts, and the
//! table that holds one amount per account.

use crate::account::AccountId;
use vstd::prelude::*;

verus! {

/// The sum of all amounts in a map with finitely many keys.
pub open spec fn sum_values(m: Map<Seq<char>, u128>) -> nat
    decreases m.dom().len(),
    when m.dom().finite()
{
    if m.dom().len() == 0 {
        0
    } else {
        let k = m.dom().choose();
        (m[k] as nat) + sum_values(m.remove(k))
    }
}

/// Any one key can be taken out of the sum first: the order in which the keys
/// are visited does not matter.
pub proof fn lemma_sum_split(m: Map<Seq<char>, u128>, k: Seq<char>)
    requires
        m.dom().finite(),
        m.dom().contains(k),
    ensures
        sum_values(m) == (m[k] as nat) + sum_values(m.remove(k)),
    decreases m.dom().len(),
{
    let c = m.dom().choose();
    if c != k {
        lemma_sum_split(m.remove(c), k);
        lemma_sum_split(m.remove(k), c);
        assert(m.remove(c).remove(k) =~= m.remove(k).remove(c));
    }
}

/// No single amount exceeds the sum.
pub proof fn lemma_sum_bounds_each(m: Map<Seq<char>, u128>, k: Seq<char>)
    requires
        m.dom().finite(),
        m.dom().contains(k),
    ensures
        m[k] <= sum_values(m),
{
    lemma_sum_split(m, k);
}

/// Writing `v` under `k` changes the sum by the difference between `v` and
/// what `k` held before, an absent key counting as zero.
pub proof fn lemma_sum_insert(m: Map<Seq<char>, u128>, k: Seq<char>, v: u128)
    requires
        m.dom().finite(),
    ensures
        sum_values(m.insert(k, v)) + amount_at(m, k) == sum_values(m) + v,
{
    lemma_sum_split(m.insert(k, v), k);
    if m.dom().contains(k) {
        lemma_sum_split(m, k);
        assert(m.insert(k, v).remove(k) =~= m.remove(k));
    } else {
        assert(m.insert(k, v).remove(k) =~= m);
    }
}

/// The amount recorded under `k`, or zero where nothing is recorded.
pub open spec fn amount_at(m: Map<Seq<char>, u128>, k: Seq<char>) -> nat {
    if m.dom().contains(k) {
        m[k] as nat
    } else {
        0
    }
}

/// One account with the amount recorded for it.
struct Entry {
    account: AccountId,
    amount: u128,
}

/// The map that a list of entries stands for, a later entry overriding an
/// earlier one with the same account.
spec fn entries_map(s: Seq<Entry>) -> Map<Seq<char>, u128>
    decreases s.len(),
{
    if s.len() == 0 {
        Map::empty()
    } else {
        entries_map(s.drop_last()).insert(s.last().account@, s.last().amount)
    }
}

/// No account occurs twice in the list.
spec fn distinct_accounts(s: Seq<Entry>) -> bool {
    forall|i: int, j: int| 0 <= i < j < s.len() ==> s[i].account@ != s[j].account@
}

/// The keys of the map are the accounts in the list, and there are finitely
/// many of them.
proof fn lemma_entries_dom(s: Seq<Entry>)
    ensures
        entries_map(s).dom().finite(),
        forall|k: Seq<char>|
            entries_map(s).dom().contains(k) <==> exists|i: int|
                0 <= i < s.len() && #[trigger] s[i].account@ == k,
    decreases s.len(),
{
    if s.len() > 0 {
        let front = s.drop_last();
        lemma_entries_dom(front);
        assert forall|k: Seq<char>|
            entries_map(s).dom().contains(k) <==> exists|i: int|
                0 <= i < s.len() && #[trigger] s[i].account@ == k by {
            if entries_map(s).dom().contains(k) {
                if k == s.last().account@ {
                    assert(s[s.len() - 1].account@ == k);
                } else {
                    let i = choose|i: int| 0 <= i < front.len() && #[trigger] front[i].account@ == k;
                    assert(s[i].account@ == k);
                }
            }
            if exists|i: int| 0 <= i < s.len() && #[trigger] s[i].account@ == k {
                let i = choose|i: int| 0 <= i < s.len() && #[trigger] s[i].account@ == k;
                if i < s.len() - 1 {
                    assert(front[i].account@ == k);
                }
            }
        }
    }
}

/// With no account twice, each entry's amount is what the map holds for its
/// account.
proof fn lemma_entries_lookup(s: Seq<Entry>, i: int)
    requires
        distinct_accounts(s),
        0 <= i < s.len(),
    ensures
        entries_map(s).dom().contains(s[i].account@),
        entries_map(s)[s[i].account@] == s[i].amount,
    decreases s.len(),
{
    if i < s.len() - 1 {
        let front = s.drop_last();
        assert(front[i] == s[i]);
        lemma_entries_lookup(front, i);
    }
}

/// Replacing the amount of one entry writes that amount under the entry's
/// account and leaves every other account as it was.
proof fn lemma_entries_update(s: Seq<Entry>, i: int, e: Entry)
    requires
        distinct_accounts(s),
        0 <= i < s.len(),
        e.account@ == s[i].account@,
    ensures
        distinct_accounts(s.update(i, e)),
        entries_map(s.update(i, e)) == entries_map(s).insert(e.account@, e.amount),
    decreases s.len(),
{
    let t = s.update(i, e);
    let front = s.drop_last();
    if i == s.len() - 1 {
        assert(t.drop_last() =~= front);
        assert(entries_map(t) =~= entries_map(s).insert(e.account@, e.amount));
    } else {
        assert(front[i] == s[i]);
        lemma_entries_update(front, i, e);
        assert(t.drop_last() =~= front.update(i, e));
        assert(t.last() == s.last());
        assert(s.last().account@ != e.account@);
        assert(entries_map(t) =~= entries_map(s).insert(e.account@, e.amount));
    }
}

/// The amounts recorded for accounts: at most one per account, zero standing
/// for an account that was never written.
pub struct BalanceTable {
    entries: Vec<Entry>,
}

impl View for BalanceTable {
    type V = Map<Seq<char>, u128>;

    closed spec fn view(&self) -> Map<Seq<char>, u128> {
        entries_map(self.entries@)
    }
}

impl BalanceTable {
    /// The table's internal consistency: no account is stored twice.
    pub closed spec fn wf(&self) -> bool {
        distinct_accounts(self.entries@)
    }

    /// A table records amounts for finitely many accounts.
    pub proof fn lemma_finite(&self)
        ensures
            self@.dom().finite(),
    {
        lemma_entries_dom(self.entries@);
    }

    /// The table with nothing recorded.
    pub fn new() -> (table: BalanceTable)
        ensures
            table.wf(),
            table@ == Map::<Seq<char>, u128>::empty(),
    {
        BalanceTable { entries: Vec::new() }
    }

    /// Where the account is stored, if it is.
    fn position(&self, account: &AccountId) -> (found: Option<usize>)
        ensures
            match found {
                Some(i) => i < self.entries@.len() && self.entries@[i as int].account@ == account@,
                None => forall|j: int|
                    0 <= j < self.entries@.len() ==> self.entries@[j].account@ != account@,
            },
    {
        let mut i: usize = 0;
        while i < self.entries.len()
            invariant
                i <= self.entries@.len(),
                forall|j: int| 0 <= j < i ==> self.entries@[j].account@ != account@,
            decreases self.entries@.len() - i,
        {
            if self.entries[i].account == *account {
                return Some(i);
            }
            i += 1;
        }
        None
    }

    /// The amount recorded for `account`, zero if none was ever recorded.
    pub fn get(&self, account: &AccountId) -> (amount: u128)
        requires
            self.wf(),
        ensures
            amount == amount_at(self@, account@),
    {
        proof {
            lemma_entries_dom(self.entries@);
        }
        match self.position(account) {
            Some(i) => {
                proof {
                    lemma_entries_lookup(self.entries@, i as int);
                }
                self.entries[i].amount
            },
            None => 0,
        }
    }

    /// Every account for which an amount is recorded, each one once.
    pub fn accounts(&self) -> (list: Vec<AccountId>)
        requires
            self.wf(),
        ensures
            forall|i: int, j: int| 0 <= i < j < list@.len() ==> list@[i]@ != list@[j]@,
            forall|k: Seq<char>|
                self@.dom().contains(k) <==> exists|i: int|
                    0 <= i < list@.len() && #[trigger] list@[i]@ == k,
    {
        let mut list: Vec<AccountId> = Vec::new();
        let mut i: usize = 0;
        while i < self.entries.len()
            invariant
                i <= self.entries@.len(),
                list@.len() == i,
                forall|j: int| 0 <= j < i ==> #[trigger] list@[j]@ == self.entries@[j].account@,
            decreases self.entries@.len() - i,
        {
            list.push(self.entries[i].account.clone());
            i += 1;
        }
        proof {
            lemma_entries_dom(self.entries@);
            assert forall|k: Seq<char>|
                self@.dom().contains(k) <==> exists|i: int|
                    0 <= i < list@.len() && #[trigger] list@[i]@ == k by {
                if self@.dom().contains(k) {
                    let i = choose|i: int|
                        0 <= i < self.entries@.len() && #[trigger] self.entries@[i].account@ == k;
                    assert(list@[i]@ == k);
                }
                if exists|i: int| 0 <= i < list@.len() && #[trigger] list@[i]@ == k {
                    let i = choose|i: int| 0 <= i < list@.len() && #[trigger] list@[i]@ == k;
                    assert(self.entries@[i].account@ == k);
                }
            }
        }
        list
    }

    /// Records `amount` for `account`, in place of whatever was recorded.
    pub fn insert(&mut self, account: &AccountId, amount: u128)
        requires
            old(self).wf(),
        ensures
            final(self).wf(),
            final(self)@ == old(self)@.insert(account@, amount),
    {
        let entry = Entry { account: account.clone(), amount };
        match self.position(account) {
            Some(i) => {
                proof {
                    lemma_entries_update(self.entries@, i as int, entry);
                }
                self.entries.set(i, entry);
            },
            None => {
                assert(self.entries@.push(entry).drop_last() =~= self.entries@);
                self.entries.push(entry);
            },
        }
    }
}

} // verus!
