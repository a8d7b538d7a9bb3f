use vstd::prelude::*;

use crate::names::{lemma_name_lt_irreflexive, lemma_name_lt_total, lemma_name_lt_transitive, name_less, name_lt};

verus! {

/// The value of a snapshot: account names as character sequences, with balances.
pub open spec fn snapshot_view(v: Seq<(String, u64)>) -> Seq<(Seq<char>, u64)> {
    v.map_values(|e: (String, u64)| (e.0@, e.1))
}

/// A canonical snapshot: every balance is positive and the names strictly
/// increase, so each account appears at most once.
pub open spec fn canonical(s: Seq<(Seq<char>, u64)>) -> bool {
    &&& forall|i: int| 0 <= i < s.len() ==> #[trigger] s[i].1 > 0
    &&& forall|i: int, j: int| 0 <= i < j < s.len() ==> name_lt(#[trigger] s[i].0, #[trigger] s[j].0)
}

/// Whether `name` has an entry in `s`.
pub open spec fn has_entry(s: Seq<(Seq<char>, u64)>, name: Seq<char>) -> bool {
    exists|i: int| 0 <= i < s.len() && #[trigger] s[i].0 == name
}

/// The balance that `s` records for `name`: 0 where it has no entry.
pub open spec fn balance_of(s: Seq<(Seq<char>, u64)>, name: Seq<char>) -> u64 {
    if has_entry(s, name) {
        s[choose|i: int| 0 <= i < s.len() && #[trigger] s[i].0 == name].1
    } else {
        0
    }
}

/// In a canonical snapshot the entry at `i` gives the balance of its name.
pub proof fn lemma_balance_at(s: Seq<(Seq<char>, u64)>, i: int)
    requires
        canonical(s),
        0 <= i < s.len(),
    ensures
        balance_of(s, s[i].0) == s[i].1,
{
    assert(has_entry(s, s[i].0));
    let j = choose|j: int| 0 <= j < s.len() && #[trigger] s[j].0 == s[i].0;
    if j != i {
        lemma_name_lt_irreflexive(s[i].0);
        if j < i {
            assert(name_lt(s[j].0, s[i].0));
        } else {
            assert(name_lt(s[i].0, s[j].0));
        }
    }
}

/// Dropping the first entry of a canonical snapshot forgets exactly its account.
pub proof fn lemma_balance_drop_first(s: Seq<(Seq<char>, u64)>, k: Seq<char>)
    requires
        canonical(s),
        s.len() > 0,
    ensures
        canonical(s.drop_first()),
        balance_of(s.drop_first(), k) == if k == s[0].0 {
            0
        } else {
            balance_of(s, k)
        },
{
    let t = s.drop_first();
    assert forall|i: int, j: int| 0 <= i < j < t.len() implies name_lt(#[trigger] t[i].0, #[trigger] t[j].0) by {
        assert(t[i] == s[i + 1] && t[j] == s[j + 1]);
    }
    assert forall|i: int| 0 <= i < t.len() implies #[trigger] t[i].1 > 0 by {
        assert(t[i] == s[i + 1]);
    }
    if has_entry(t, k) {
        let m = choose|m: int| 0 <= m < t.len() && #[trigger] t[m].0 == k;
        lemma_balance_at(t, m);
        assert(t[m] == s[m + 1]);
        lemma_balance_at(s, m + 1);
        if k == s[0].0 {
            lemma_name_lt_irreflexive(k);
            assert(name_lt(s[0].0, s[m + 1].0));
        }
    } else if k != s[0].0 && has_entry(s, k) {
        let m = choose|m: int| 0 <= m < s.len() && #[trigger] s[m].0 == k;
        assert(m > 0);
        assert(t[m - 1].0 == k);
    }
}

/// A canonical snapshot is determined by the balances it records.
pub proof fn lemma_canonical_unique(s: Seq<(Seq<char>, u64)>, t: Seq<(Seq<char>, u64)>)
    requires
        canonical(s),
        canonical(t),
        forall|k: Seq<char>| #[trigger] balance_of(s, k) == balance_of(t, k),
    ensures
        s == t,
    decreases s.len(),
{
    if s.len() == 0 {
        if t.len() > 0 {
            lemma_balance_at(t, 0);
            assert(!has_entry(s, t[0].0));
            assert(balance_of(s, t[0].0) == 0);
        }
        assert(s =~= t);
    } else {
        lemma_balance_at(s, 0);
        assert(balance_of(t, s[0].0) > 0);
        assert(t.len() > 0) by {
            if t.len() == 0 {
                assert(!has_entry(t, s[0].0));
            }
        }
        lemma_balance_at(t, 0);
        assert(balance_of(s, t[0].0) > 0);
        // The least names agree: each side holds the other's first name.
        if s[0].0 != t[0].0 {
            let j = choose|j: int| 0 <= j < t.len() && #[trigger] t[j].0 == s[0].0;
            let i = choose|i: int| 0 <= i < s.len() && #[trigger] s[i].0 == t[0].0;
            assert(j > 0 && i > 0);
            assert(name_lt(t[0].0, s[0].0));
            assert(name_lt(s[0].0, t[0].0));
            lemma_name_lt_transitive(s[0].0, t[0].0, s[0].0);
            lemma_name_lt_irreflexive(s[0].0);
        }
        assert(s[0] == t[0]);
        assert forall|k: Seq<char>| #[trigger] balance_of(s.drop_first(), k) == balance_of(t.drop_first(), k) by {
            lemma_balance_drop_first(s, k);
            lemma_balance_drop_first(t, k);
        }
        lemma_balance_drop_first(s, s[0].0);
        lemma_balance_drop_first(t, t[0].0);
        lemma_canonical_unique(s.drop_first(), t.drop_first());
        assert(s =~= seq![s[0]] + s.drop_first());
        assert(t =~= seq![t[0]] + t.drop_first());
    }
}

/// Names appear at most once in `s`.
pub open spec fn distinct_names(s: Seq<(Seq<char>, u64)>) -> bool {
    forall|i: int, j: int| 0 <= i < j < s.len() ==> #[trigger] s[i].0 != #[trigger] s[j].0
}

/// Where names are distinct, the entry at `i` gives the balance of its name.
proof fn lemma_balance_distinct(s: Seq<(Seq<char>, u64)>, i: int)
    requires
        distinct_names(s),
        0 <= i < s.len(),
    ensures
        balance_of(s, s[i].0) == s[i].1,
{
    assert(has_entry(s, s[i].0));
    let j = choose|j: int| 0 <= j < s.len() && #[trigger] s[j].0 == s[i].0;
    if j < i {
        assert(s[j].0 != s[i].0);
    } else if j > i {
        assert(s[i].0 != s[j].0);
    }
}

/// Appending an entry for a new name records its balance and keeps the others.
proof fn lemma_balance_push(s: Seq<(Seq<char>, u64)>, e: (Seq<char>, u64), k: Seq<char>)
    requires
        distinct_names(s.push(e)),
    ensures
        balance_of(s.push(e), k) == if k == e.0 {
            e.1
        } else {
            balance_of(s, k)
        },
{
    let t = s.push(e);
    assert(distinct_names(s)) by {
        assert forall|a: int, b: int| 0 <= a < b < s.len() implies #[trigger] s[a].0 != #[trigger] s[b].0 by {
            assert(t[a] == s[a] && t[b] == s[b]);
        }
    }
    if k == e.0 {
        assert(t[s.len() as int] == e);
        lemma_balance_distinct(t, s.len() as int);
    } else if has_entry(s, k) {
        let m = choose|m: int| 0 <= m < s.len() && #[trigger] s[m].0 == k;
        assert(t[m] == s[m]);
        lemma_balance_distinct(t, m);
        lemma_balance_distinct(s, m);
    } else {
        assert forall|j: int| 0 <= j < t.len() implies #[trigger] t[j].0 != k by {
            if j < s.len() {
                assert(t[j] == s[j]);
            }
        }
        assert(!has_entry(t, k));
    }
}

/// The canonical snapshot of per-account readings with distinct names: zero
/// balances dropped, the rest sorted by name.
pub fn canonical_snapshot(readings: &Vec<(String, u64)>) -> (r: Vec<(String, u64)>)
    requires
        forall|i: int, j: int| 0 <= i < j < readings@.len() ==> readings@[i].0@ != readings@[j].0@,
    ensures
        canonical(snapshot_view(r@)),
        forall|k: Seq<char>| #[trigger] balance_of(snapshot_view(r@), k) == balance_of(snapshot_view(readings@), k),
{
    let ghost v = snapshot_view(readings@);
    let mut table = BalanceTable::new();
    let mut i: usize = 0;
    while i < readings.len()
        invariant
            i <= readings@.len(),
            v == snapshot_view(readings@),
            distinct_names(v),
            table.wf(),
            forall|k: Seq<char>| #[trigger] balance_of(table@, k) == balance_of(v.take(i as int), k),
        decreases readings.len() - i,
    {
        let ghost before = table@;
        table.set_balance(&readings[i].0, readings[i].1);
        proof {
            assert(v.take(i + 1) =~= v.take(i as int).push(v[i as int]));
            assert forall|a: int, b: int| 0 <= a < b < v.take(i + 1).len() implies #[trigger] v.take(i + 1)[a].0
                != #[trigger] v.take(i + 1)[b].0 by {
                assert(v.take(i + 1)[a] == v[a] && v.take(i + 1)[b] == v[b]);
            }
            assert forall|k: Seq<char>| #[trigger] balance_of(table@, k) == balance_of(v.take(i + 1), k) by {
                lemma_balance_push(v.take(i as int), v[i as int], k);
            }
        }
        i = i + 1;
    }
    proof {
        assert(v.take(i as int) =~= v);
    }
    table.entries()
}

/// Balances held per account, as a canonical list of positive entries.
///
/// The table maps account names to balances. Entries are kept in name order
/// and only for positive balances, so the list is at all times the snapshot
/// itself: `entries` copies it without sorting, and a lookup or an update is
/// one scan.
#[derive(Clone, Debug)]
pub struct BalanceTable {
    entries: Vec<(String, u64)>,
}

impl View for BalanceTable {
    type V = Seq<(Seq<char>, u64)>;

    closed spec fn view(&self) -> Seq<(Seq<char>, u64)> {
        snapshot_view(self.entries@)
    }
}

impl BalanceTable {
    pub open spec fn wf(&self) -> bool {
        canonical(self@)
    }

    pub fn new() -> (r: Self)
        ensures
            r.wf(),
            r@ == Seq::<(Seq<char>, u64)>::empty(),
    {
        BalanceTable { entries: Vec::new() }
    }

    /// The balance of `account`: 0 if it has none.
    pub fn balance(&self, account: &String) -> (r: u64)
        requires
            self.wf(),
        ensures
            r == balance_of(self@, account@),
    {
        let mut i: usize = 0;
        while i < self.entries.len()
            invariant
                i <= self.entries.len(),
                self.wf(),
                forall|j: int| 0 <= j < i ==> self@[j].0 != account@,
            decreases self.entries.len() - i,
        {
            if self.entries[i].0 == *account {
                proof {
                    lemma_balance_at(self@, i as int);
                }
                return self.entries[i].1;
            }
            i = i + 1;
        }
        assert(!has_entry(self@, account@));
        0
    }

    /// Sets the balance of `account`; a balance of 0 removes its entry.
    pub fn set_balance(&mut self, account: &String, balance: u64)
        requires
            old(self).wf(),
        ensures
            final(self).wf(),
            forall|k: Seq<char>|
                #[trigger] balance_of(final(self)@, k) == if k == account@ {
                    balance
                } else {
                    balance_of(old(self)@, k)
                },
    {
        let ghost s0 = self@;
        let mut i: usize = 0;
        while i < self.entries.len() && name_less(&self.entries[i].0, account)
            invariant
                i <= self.entries.len(),
                self@ == s0,
                canonical(s0),
                forall|j: int| 0 <= j < i ==> name_lt(#[trigger] s0[j].0, account@),
            decreases self.entries.len() - i,
        {
            i = i + 1;
        }
        // Every entry from `i` on comes strictly after `account`, except
        // possibly the one at `i` itself, which may be equal.
        let found = i < self.entries.len() && self.entries[i].0 == *account;
        proof {
            if i < s0.len() {
                if s0[i as int].0 != account@ {
                    lemma_name_lt_total(s0[i as int].0, account@);
                }
            }
            assert forall|j: int| i < j < s0.len() implies name_lt(account@, #[trigger] s0[j].0) by {
                if s0[i as int].0 != account@ {
                    lemma_name_lt_transitive(account@, s0[i as int].0, s0[j].0);
                }
            }
            assert forall|j: int| 0 <= j < s0.len() && j != i implies #[trigger] s0[j].0 != account@ by {
                if j < i {
                    lemma_name_lt_irreflexive(account@);
                } else {
                    lemma_name_lt_irreflexive(account@);
                }
            }
        }
        if found {
            if balance == 0 {
                self.entries.remove(i);
                proof {
                    assert(self@ =~= s0.remove(i as int));
                }
            } else {
                self.entries.set(i, (account.clone(), balance));
                proof {
                    assert(self@ =~= s0.update(i as int, (account@, balance)));
                }
            }
        } else if balance != 0 {
            self.entries.insert(i, (account.clone(), balance));
            proof {
                assert(self@ =~= s0.insert(i as int, (account@, balance)));
            }
        }
        proof {
            let s1 = self@;
            // `src(m)` is the index in `s0` that entry `m` of `s1` came from.
            let removed = found && balance == 0;
            let inserted = !found && balance != 0;
            assert forall|m: int| 0 <= m < s1.len() && !(inserted && m == i) && !(found && balance != 0 && m == i) implies
                #[trigger] s1[m] == s0[if removed && m >= i { m + 1 } else if inserted && m > i { m - 1 } else { m }] by {}
            assert forall|m: int| 0 <= m < s1.len() implies #[trigger] s1[m].1 > 0 by {
                if !((inserted || (found && balance != 0)) && m == i) {
                    let n = if removed && m >= i { m + 1 } else if inserted && m > i { m - 1 } else { m };
                    assert(s1[m] == s0[n]);
                }
            }
            assert forall|a: int, b: int| 0 <= a < b < s1.len() implies name_lt(#[trigger] s1[a].0, #[trigger] s1[b].0) by {
                let na = if removed && a >= i { a + 1 } else if inserted && a > i { a - 1 } else { a };
                let nb = if removed && b >= i { b + 1 } else if inserted && b > i { b - 1 } else { b };
                let a_new = (inserted || (found && balance != 0)) && a == i;
                let b_new = (inserted || (found && balance != 0)) && b == i;
                if a_new {
                    assert(s1[a].0 == account@);
                    assert(s1[b] == s0[nb]);
                } else if b_new {
                    assert(s1[b].0 == account@);
                    assert(s1[a] == s0[na]);
                } else {
                    assert(s1[a] == s0[na]);
                    assert(s1[b] == s0[nb]);
                }
            }
            assert(canonical(s1));
            assert forall|k: Seq<char>|
                #[trigger] balance_of(s1, k) == if k == account@ {
                    balance
                } else {
                    balance_of(s0, k)
                } by {
                if has_entry(s1, k) {
                    let m = choose|m: int| 0 <= m < s1.len() && #[trigger] s1[m].0 == k;
                    lemma_balance_at(s1, m);
                    if k != account@ {
                        let n = if removed && m >= i { m + 1 } else if inserted && m > i { m - 1 } else { m };
                        assert(s1[m] == s0[n]);
                        lemma_balance_at(s0, n);
                    } else if !removed {
                        assert(s1[i as int].0 == account@);
                        lemma_balance_at(s1, i as int);
                    }
                } else {
                    if k == account@ {
                        if balance != 0 {
                            assert(s1[i as int].0 == k);
                        }
                    } else if has_entry(s0, k) {
                        let n = choose|n: int| 0 <= n < s0.len() && #[trigger] s0[n].0 == k;
                        let m = if removed && n > i { n - 1 } else if inserted && n >= i { n + 1 } else { n };
                        assert(s1[m].0 == k);
                    }
                }
            }
        }
    }

    /// A copy of the entries, in order.
    pub fn entries(&self) -> (r: Vec<(String, u64)>)
        ensures
            snapshot_view(r@) == self@,
    {
        let mut out: Vec<(String, u64)> = Vec::new();
        let mut i: usize = 0;
        while i < self.entries.len()
            invariant
                i <= self.entries.len(),
                snapshot_view(out@) =~= self@.subrange(0, i as int),
            decreases self.entries.len() - i,
        {
            let ghost old_out = out@;
            let e = &self.entries[i];
            let name = e.0.clone();
            out.push((name, e.1));
            proof {
                assert(snapshot_view(out@) =~= snapshot_view(out@.drop_last()).push((name@, e.1)));
                assert(out@.drop_last() =~= old_out);
            }
            i = i + 1;
        }
        assert(self@.subrange(0, i as int) =~= self@);
        out
    }
}

} // verus!
