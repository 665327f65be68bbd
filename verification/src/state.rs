//! The engine's persistent records: the owner configuration and the balance
//! ledger, together with the ledger's mathematical model.

use vstd::prelude::*;
use vstd::string::StringExecFns;

verus! {

/// The only token denomination the engine settles.
pub open spec fn token_name() -> Seq<char> {
    "usei"@
}

/// The fixed token symbol as an owned string.
pub fn token_string() -> (s: String)
    ensures
        s@ == token_name(),
{
    String::from_str("usei")
}

/// A quantity of one token denomination.
#[derive(Clone, Debug, PartialEq, Eq)]
pub struct Coin {
    pub denom: String,
    pub amount: u128,
}

/// A ledger record as handed out to callers: the balance credited to one
/// account.
#[derive(Clone, Debug, PartialEq, Eq)]
pub struct Balance {
    pub balance: Coin,
}

/// The singleton configuration record: the account entitled to the protocol
/// fee, fixed at instantiation and immutable thereafter.
#[derive(Clone, Debug, PartialEq, Eq)]
pub struct State {
    pub owner: String,
}

/// One stored row of the ledger.
struct LedgerEntry {
    addr: String,
    amount: u128,
}

/// The mapping that a row sequence stores: the last row for a key wins, though
/// a well-formed ledger never holds two rows for one key.
spec fn map_of(rows: Seq<LedgerEntry>) -> Map<Seq<char>, int>
    decreases rows.len(),
{
    if rows.len() == 0 {
        Map::empty()
    } else {
        map_of(rows.drop_last()).insert(rows.last().addr@, rows.last().amount as int)
    }
}

/// The sum of all stored amounts of a row sequence.
spec fn sum_of(rows: Seq<LedgerEntry>) -> int
    decreases rows.len(),
{
    if rows.len() == 0 {
        0
    } else {
        sum_of(rows.drop_last()) + rows.last().amount
    }
}

/// No two rows name the same account.
spec fn rows_unique(rows: Seq<LedgerEntry>) -> bool {
    forall|i: int, j: int|
        0 <= i < j < rows.len() ==> rows[i].addr@ != rows[j].addr@
}

/// Every stored amount is strictly positive.
spec fn rows_positive(rows: Seq<LedgerEntry>) -> bool {
    forall|i: int| 0 <= i < rows.len() ==> rows[i].amount > 0
}

/// A ledger after crediting `a` to `k`: an absent account gets a row only for
/// a positive credit, so a zero balance is never stored.
pub open spec fn spec_credit(m: Map<Seq<char>, int>, k: Seq<char>, a: int) -> Map<Seq<char>, int> {
    if m.contains_key(k) {
        m.insert(k, m[k] + a)
    } else if a > 0 {
        m.insert(k, a)
    } else {
        m
    }
}

/// A ledger after debiting `a` from `k`: the row is deleted exactly when the
/// balance reaches zero.
pub open spec fn spec_debit(m: Map<Seq<char>, int>, k: Seq<char>, a: int) -> Map<Seq<char>, int> {
    if m[k] - a == 0 {
        m.remove(k)
    } else {
        m.insert(k, m[k] - a)
    }
}

proof fn lemma_map_of_contains(rows: Seq<LedgerEntry>, key: Seq<char>)
    ensures
        map_of(rows).contains_key(key) <==> exists|i: int|
            0 <= i < rows.len() && rows[i].addr@ == key,
    decreases rows.len(),
{
    if rows.len() > 0 {
        lemma_map_of_contains(rows.drop_last(), key);
        if map_of(rows).contains_key(key) {
            if rows.last().addr@ == key {
                assert(rows[rows.len() - 1].addr@ == key);
            } else {
                let i = choose|i: int|
                    0 <= i < rows.drop_last().len() && rows.drop_last()[i].addr@ == key;
                assert(rows[i].addr@ == key);
            }
        }
        if exists|i: int| 0 <= i < rows.len() && rows[i].addr@ == key {
            let i = choose|i: int| 0 <= i < rows.len() && rows[i].addr@ == key;
            if i < rows.len() - 1 {
                assert(rows.drop_last()[i].addr@ == key);
            }
        }
    }
}

proof fn lemma_map_of_value(rows: Seq<LedgerEntry>, i: int)
    requires
        rows_unique(rows),
        0 <= i < rows.len(),
    ensures
        map_of(rows).contains_key(rows[i].addr@),
        map_of(rows)[rows[i].addr@] == rows[i].amount as int,
    decreases rows.len(),
{
    if i < rows.len() - 1 {
        assert(rows_unique(rows.drop_last())) by {
            assert forall|a: int, b: int|
                0 <= a < b < rows.drop_last().len() implies rows.drop_last()[a].addr@
                != rows.drop_last()[b].addr@ by {
                assert(rows.drop_last()[a] == rows[a]);
                assert(rows.drop_last()[b] == rows[b]);
            }
        }
        lemma_map_of_value(rows.drop_last(), i);
        assert(rows.drop_last()[i] == rows[i]);
        assert(rows.last().addr@ != rows[i].addr@);
    }
}

proof fn lemma_map_of_push(rows: Seq<LedgerEntry>, row: LedgerEntry)
    ensures
        map_of(rows.push(row)) == map_of(rows).insert(row.addr@, row.amount as int),
        sum_of(rows.push(row)) == sum_of(rows) + row.amount,
{
    assert(rows.push(row).drop_last() =~= rows);
    assert(rows.push(row).last() == row);
}

proof fn lemma_map_of_remove(rows: Seq<LedgerEntry>, i: int)
    requires
        rows_unique(rows),
        0 <= i < rows.len(),
    ensures
        map_of(rows.remove(i)) == map_of(rows).remove(rows[i].addr@),
        sum_of(rows.remove(i)) == sum_of(rows) - rows[i].amount,
    decreases rows.len(),
{
    let key = rows[i].addr@;
    rows.remove_ensures(i);
    if i == rows.len() - 1 {
        assert(rows.remove(i) =~= rows.drop_last());
        lemma_map_of_contains(rows.drop_last(), key);
        assert(forall|j: int|
            0 <= j < rows.drop_last().len() ==> rows.drop_last()[j].addr@ != key);
        assert(!map_of(rows.drop_last()).contains_key(key));
        assert(map_of(rows).remove(key) =~= map_of(rows.drop_last()));
    } else {
        assert(rows_unique(rows.drop_last())) by {
            assert forall|a: int, b: int|
                0 <= a < b < rows.drop_last().len() implies rows.drop_last()[a].addr@
                != rows.drop_last()[b].addr@ by {
                assert(rows.drop_last()[a] == rows[a]);
                assert(rows.drop_last()[b] == rows[b]);
            }
        }
        assert(rows.drop_last()[i] == rows[i]);
        lemma_map_of_remove(rows.drop_last(), i);
        rows.drop_last().remove_ensures(i);
        assert(rows.remove(i).drop_last() =~= rows.drop_last().remove(i));
        assert(rows.remove(i).last() == rows.last());
        assert(rows.last().addr@ != key);
        assert(map_of(rows.drop_last()).remove(key).insert(
            rows.last().addr@,
            rows.last().amount as int,
        ) =~= map_of(rows.drop_last()).insert(
            rows.last().addr@,
            rows.last().amount as int,
        ).remove(key));
        assert(map_of(rows.remove(i)) == map_of(rows.drop_last().remove(i)).insert(
            rows.last().addr@,
            rows.last().amount as int,
        ));
    }
}

proof fn lemma_sum_nonneg(rows: Seq<LedgerEntry>)
    ensures
        sum_of(rows) >= 0,
    decreases rows.len(),
{
    if rows.len() > 0 {
        lemma_sum_nonneg(rows.drop_last());
    }
}

proof fn lemma_rows_unique_remove(rows: Seq<LedgerEntry>, i: int)
    requires
        rows_unique(rows),
        0 <= i < rows.len(),
    ensures
        rows_unique(rows.remove(i)),
        rows_positive(rows) ==> rows_positive(rows.remove(i)),
        forall|j: int|
            0 <= j < rows.remove(i).len() ==> rows.remove(i)[j].addr@ != rows[i].addr@,
{
    let r = rows.remove(i);
    rows.remove_ensures(i);
    assert forall|a: int, b: int| 0 <= a < b < r.len() implies r[a].addr@ != r[b].addr@ by {
        if a < i {
            assert(r[a] == rows[a]);
        } else {
            assert(r[a] == rows[a + 1]);
        }
        if b < i {
            assert(r[b] == rows[b]);
        } else {
            assert(r[b] == rows[b + 1]);
        }
    }
    assert forall|j: int| 0 <= j < r.len() implies r[j].addr@ != rows[i].addr@ by {
        if j < i {
            assert(r[j] == rows[j]);
        } else {
            assert(r[j] == rows[j + 1]);
        }
    }
    if rows_positive(rows) {
        assert forall|j: int| 0 <= j < r.len() implies r[j].amount > 0 by {
            if j < i {
                assert(r[j] == rows[j]);
            } else {
                assert(r[j] == rows[j + 1]);
            }
        }
    }
}

/// The balance ledger: a mapping from account identifier to a positive
/// credited amount of the fixed token, with unique keys.
pub struct Ledger {
    entries: Vec<LedgerEntry>,
}

impl View for Ledger {
    type V = Map<Seq<char>, int>;

    closed spec fn view(&self) -> Map<Seq<char>, int> {
        map_of(self.entries@)
    }
}

impl Ledger {
    /// Key uniqueness and strict positivity of every stored balance: an
    /// account with nothing credited has no row at all.
    pub closed spec fn wf(&self) -> bool {
        rows_unique(self.entries@) && rows_positive(self.entries@)
    }

    /// The sum of all stored balances.
    pub closed spec fn total(&self) -> int {
        sum_of(self.entries@)
    }

    pub fn new() -> (r: Ledger)
        ensures
            r.wf(),
            r@ == Map::<Seq<char>, int>::empty(),
            r.total() == 0,
    {
        Ledger { entries: Vec::new() }
    }

    fn find(&self, addr: &String) -> (r: Option<usize>)
        ensures
            match r {
                Some(i) => i < self.entries@.len() && self.entries@[i as int].addr@ == addr@,
                None => forall|i: int|
                    0 <= i < self.entries@.len() ==> self.entries@[i].addr@ != addr@,
            },
    {
        let mut j: usize = 0;
        while j < self.entries.len()
            invariant
                j <= self.entries@.len(),
                forall|i: int| 0 <= i < j ==> self.entries@[i].addr@ != addr@,
            decreases self.entries@.len() - j,
        {
            if self.entries[j].addr == *addr {
                return Some(j);
            }
            j = j + 1;
        }
        None
    }

    /// The stored balance record of `addr`, or `None` where no row exists.
    pub fn get(&self, addr: &String) -> (r: Option<Balance>)
        requires
            self.wf(),
        ensures
            match r {
                Some(b) => self@.contains_key(addr@) && b.balance.amount as int == self@[addr@]
                    && b.balance.amount > 0 && b.balance.denom@ == token_name(),
                None => !self@.contains_key(addr@),
            },
    {
        match self.find(addr) {
            Some(i) => {
                proof {
                    lemma_map_of_value(self.entries@, i as int);
                }
                Some(
                    Balance {
                        balance: Coin { denom: token_string(), amount: self.entries[i].amount },
                    },
                )
            },
            None => {
                proof {
                    lemma_map_of_contains(self.entries@, addr@);
                }
                None
            },
        }
    }

    /// Increases the stored balance of `addr` by `amount`, creating the row if
    /// it is absent and the credit positive. The whole ledger total grows by
    /// exactly `amount`.
    pub fn credit(&mut self, addr: &String, amount: u128)
        requires
            old(self).wf(),
            old(self).total() + amount <= u128::MAX,
        ensures
            final(self).wf(),
            final(self)@ == spec_credit(old(self)@, addr@, amount as int),
            final(self).total() == old(self).total() + amount,
    {
        match self.find(addr) {
            Some(i) => {
                proof {
                    lemma_map_of_value(self.entries@, i as int);
                    lemma_map_of_remove(self.entries@, i as int);
                    lemma_rows_unique_remove(self.entries@, i as int);
                    lemma_sum_nonneg(self.entries@.remove(i as int));
                    lemma_map_of_contains(self.entries@.remove(i as int), addr@);
                }
                let row = self.entries.remove(i);
                let updated = LedgerEntry { addr: row.addr, amount: row.amount + amount };
                proof {
                    lemma_map_of_push(self.entries@, updated);
                    assert(map_of(old(self).entries@).remove(addr@).insert(
                        addr@,
                        updated.amount as int,
                    ) =~= map_of(old(self).entries@).insert(addr@, updated.amount as int));
                }
                self.entries.push(updated);
            },
            None => {
                proof {
                    lemma_map_of_contains(self.entries@, addr@);
                }
                if amount > 0 {
                    let row = LedgerEntry { addr: addr.clone(), amount };
                    proof {
                        lemma_map_of_push(self.entries@, row);
                    }
                    self.entries.push(row);
                }
            },
        }
    }

    /// Decreases the stored balance of `addr` by `amount`, which must not
    /// exceed it; the row is deleted when the remaining balance is zero. The
    /// whole ledger total shrinks by exactly `amount`.
    pub fn debit(&mut self, addr: &String, amount: u128)
        requires
            old(self).wf(),
            old(self)@.contains_key(addr@),
            amount as int <= old(self)@[addr@],
        ensures
            final(self).wf(),
            final(self)@ == spec_debit(old(self)@, addr@, amount as int),
            final(self).total() == old(self).total() - amount,
    {
        match self.find(addr) {
            Some(i) => {
                proof {
                    lemma_map_of_value(self.entries@, i as int);
                    lemma_map_of_remove(self.entries@, i as int);
                    lemma_rows_unique_remove(self.entries@, i as int);
                    lemma_map_of_contains(self.entries@.remove(i as int), addr@);
                }
                let row = self.entries.remove(i);
                let remaining = row.amount - amount;
                if remaining > 0 {
                    let updated = LedgerEntry { addr: row.addr, amount: remaining };
                    proof {
                        lemma_map_of_push(self.entries@, updated);
                        assert(map_of(old(self).entries@).remove(addr@).insert(
                            addr@,
                            remaining as int,
                        ) =~= map_of(old(self).entries@).insert(addr@, remaining as int));
                    }
                    self.entries.push(updated);
                }
            },
            None => {
                proof {
                    lemma_map_of_contains(self.entries@, addr@);
                    assert(false);
                }
            },
        }
    }
}

/// Every stored ledger balance is strictly positive: an account whose balance
/// reached zero keeps no entry at all.
pub proof fn lemma_balances_positive(l: &Ledger, k: Seq<char>)
    requires
        l.wf(),
        l@.contains_key(k),
    ensures
        l@[k] > 0,
{
    lemma_map_of_contains(l.entries@, k);
    let i = choose|i: int| 0 <= i < l.entries@.len() && l.entries@[i].addr@ == k;
    lemma_map_of_value(l.entries@, i);
}

/// The settlement engine's whole state: the immutable owner configuration and
/// the mutable balance ledger.
pub struct Engine {
    pub state: State,
    pub ledger: Ledger,
}

impl Engine {
    pub open spec fn wf(&self) -> bool {
        self.ledger.wf()
    }
}

} // verus!
