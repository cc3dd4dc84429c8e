use vstd::prelude::*;

use crate::account::Address;

verus! {

/// Value held by the first entry of `s` whose key is `a`, or zero when no
/// entry has that key. Absence of a key is semantically a zero balance.
pub closed spec fn entries_get(s: Seq<(Address, u128)>, a: Address) -> u128
    decreases s.len(),
{
    if s.len() == 0 {
        0
    } else if s[0].0 == a {
        s[0].1
    } else {
        entries_get(s.drop_first(), a)
    }
}

/// Sum of the values of all entries of `s`.
pub closed spec fn entries_sum(s: Seq<(Address, u128)>) -> int
    decreases s.len(),
{
    if s.len() == 0 {
        0
    } else {
        s[0].1 + entries_sum(s.drop_first())
    }
}

/// No two entries of `s` share a key, so `entries_sum` is the sum over
/// distinct accounts.
pub open spec fn unique_keys(s: Seq<(Address, u128)>) -> bool {
    forall|i: int, j: int| 0 <= i < j < s.len() ==> (#[trigger] s[i]).0 != (#[trigger] s[j]).0
}

proof fn lemma_sum_nonneg(s: Seq<(Address, u128)>)
    ensures
        entries_sum(s) >= 0,
    decreases s.len(),
{
    if s.len() > 0 {
        lemma_sum_nonneg(s.drop_first());
    }
}

proof fn lemma_sum_update(s: Seq<(Address, u128)>, i: int, v: (Address, u128))
    requires
        0 <= i < s.len(),
    ensures
        entries_sum(s.update(i, v)) == entries_sum(s) - s[i].1 + v.1,
    decreases i,
{
    if i == 0 {
        assert(s.update(0, v).drop_first() =~= s.drop_first());
    } else {
        lemma_sum_update(s.drop_first(), i - 1, v);
        assert(s.update(i, v).drop_first() =~= s.drop_first().update(i - 1, v));
    }
}

proof fn lemma_sum_push(s: Seq<(Address, u128)>, v: (Address, u128))
    ensures
        entries_sum(s.push(v)) == entries_sum(s) + v.1,
    decreases s.len(),
{
    if s.len() == 0 {
        assert(s.push(v)[0] == v);
        assert(s.push(v).drop_first() =~= Seq::<(Address, u128)>::empty());
        assert(entries_sum(Seq::<(Address, u128)>::empty()) == 0);
    } else {
        lemma_sum_push(s.drop_first(), v);
        assert(s.push(v)[0] == s[0]);
        assert(s.push(v).drop_first() =~= s.drop_first().push(v));
    }
}

/// A stored value never exceeds the sum of all stored values.
proof fn lemma_get_le_sum_rec(s: Seq<(Address, u128)>, a: Address)
    ensures
        entries_get(s, a) <= entries_sum(s),
    decreases s.len(),
{
    if s.len() > 0 {
        lemma_get_le_sum_rec(s.drop_first(), a);
        lemma_sum_nonneg(s.drop_first());
    }
}

/// When `i` is the first position whose key is `a`, the lookup returns the
/// value stored there.
proof fn lemma_get_at_first_match(s: Seq<(Address, u128)>, a: Address, i: int)
    requires
        0 <= i < s.len(),
        s[i].0 == a,
        forall|j: int| 0 <= j < i ==> s[j].0 != a,
    ensures
        entries_get(s, a) == s[i].1,
    decreases i,
{
    if i > 0 {
        lemma_get_at_first_match(s.drop_first(), a, i - 1);
    }
}

/// When no entry has key `a`, the lookup returns zero.
proof fn lemma_get_absent(s: Seq<(Address, u128)>, a: Address)
    requires
        forall|j: int| 0 <= j < s.len() ==> s[j].0 != a,
    ensures
        entries_get(s, a) == 0,
    decreases s.len(),
{
    if s.len() > 0 {
        lemma_get_absent(s.drop_first(), a);
    }
}

/// Overwriting the first entry keyed `v.0` changes the lookup at `v.0` and
/// nothing else.
proof fn lemma_get_update(s: Seq<(Address, u128)>, i: int, v: (Address, u128), a: Address)
    requires
        0 <= i < s.len(),
        s[i].0 == v.0,
        forall|j: int| 0 <= j < i ==> s[j].0 != v.0,
    ensures
        entries_get(s.update(i, v), a) == if a == v.0 {
            v.1
        } else {
            entries_get(s, a)
        },
    decreases i,
{
    if i == 0 {
        assert(s.update(0, v).drop_first() =~= s.drop_first());
    } else {
        lemma_get_update(s.drop_first(), i - 1, v, a);
        assert(s.update(i, v).drop_first() =~= s.drop_first().update(i - 1, v));
    }
}

/// Appending an entry with a fresh key changes the lookup at that key and
/// nothing else.
proof fn lemma_get_push(s: Seq<(Address, u128)>, v: (Address, u128), a: Address)
    requires
        forall|j: int| 0 <= j < s.len() ==> s[j].0 != v.0,
    ensures
        entries_get(s.push(v), a) == if a == v.0 {
            v.1
        } else {
            entries_get(s, a)
        },
    decreases s.len(),
{
    if s.len() == 0 {
        assert(s.push(v)[0] == v);
        assert(s.push(v).drop_first() =~= Seq::<(Address, u128)>::empty());
        assert(entries_get(Seq::<(Address, u128)>::empty(), a) == 0);
    } else {
        lemma_get_push(s.drop_first(), v, a);
        assert(s.push(v)[0] == s[0]);
        assert(s.push(v).drop_first() =~= s.drop_first().push(v));
    }
}

/// The balance table: a mapping from account identity to unsigned quantity.
/// Keys are unique; an account that was never written holds zero.
pub struct BalanceTable {
    entries: Vec<(Address, u128)>,
}

impl BalanceTable {
    /// The quantity held by account `a`; zero for unknown accounts.
    pub closed spec fn spec_get(self, a: Address) -> u128 {
        entries_get(self.entries@, a)
    }

    /// The sum of all balances in the table.
    pub closed spec fn sum(self) -> int {
        entries_sum(self.entries@)
    }

    /// Each account has at most one entry.
    pub closed spec fn wf(self) -> bool {
        unique_keys(self.entries@)
    }

    /// A balance is never negative and never exceeds the sum of all
    /// balances.
    pub proof fn lemma_get_le_sum(self, a: Address)
        ensures
            0 <= self.spec_get(a) <= self.sum(),
    {
        lemma_get_le_sum_rec(self.entries@, a);
    }

    /// Creates an empty table: every account holds zero.
    pub fn new() -> (t: BalanceTable)
        ensures
            t.wf(),
            t.sum() == 0,
            forall|a: Address| t.spec_get(a) == 0,
    {
        let t = BalanceTable { entries: Vec::new() };
        proof {
            assert forall|a: Address| t.spec_get(a) == 0 by {
                lemma_get_absent(t.entries@, a);
            }
        }
        t
    }

    /// Position of the first entry keyed `a`, if any.
    fn find(&self, a: Address) -> (r: Option<usize>)
        ensures
            match r {
                Some(i) => i < self.entries@.len() && self.entries@[i as int].0 == a
                    && forall|j: int| 0 <= j < i ==> self.entries@[j].0 != a,
                None => forall|j: int| 0 <= j < self.entries@.len() ==> self.entries@[j].0 != a,
            },
    {
        let mut i: usize = 0;
        while i < self.entries.len()
            invariant
                i <= self.entries@.len(),
                forall|j: int| 0 <= j < i ==> self.entries@[j].0 != a,
            decreases self.entries@.len() - i,
        {
            if self.entries[i].0 == a {
                return Some(i);
            }
            i = i + 1;
        }
        None
    }

    /// Reads the balance of account `a`; zero when the account was never
    /// written. Total: it never fails and has no side effect.
    pub fn get(&self, a: Address) -> (r: u128)
        ensures
            r == self.spec_get(a),
    {
        match self.find(a) {
            Some(i) => {
                proof {
                    lemma_get_at_first_match(self.entries@, a, i as int);
                }
                self.entries[i].1
            },
            None => {
                proof {
                    lemma_get_absent(self.entries@, a);
                }
                0
            },
        }
    }

    /// Overwrites the balance of account `a` with `v`. Every other account
    /// keeps its balance, and the sum moves by exactly the difference.
    pub fn set(&mut self, a: Address, v: u128)
        requires
            old(self).wf(),
        ensures
            final(self).wf(),
            final(self).spec_get(a) == v,
            forall|b: Address| b != a ==> final(self).spec_get(b) == old(self).spec_get(b),
            final(self).sum() == old(self).sum() - old(self).spec_get(a) + v,
    {
        let ghost s0 = self.entries@;
        match self.find(a) {
            Some(i) => {
                self.entries[i] = (a, v);
                proof {
                    lemma_get_at_first_match(s0, a, i as int);
                    lemma_sum_update(s0, i as int, (a, v));
                    assert forall|b: Address| b != a implies self.spec_get(b) == entries_get(
                        s0,
                        b,
                    ) by {
                        lemma_get_update(s0, i as int, (a, v), b);
                    }
                    lemma_get_update(s0, i as int, (a, v), a);
                    assert forall|p: int, q: int|
                        0 <= p < q < self.entries@.len() implies (#[trigger] self.entries@[p]).0
                        != (#[trigger] self.entries@[q]).0 by {
                        assert(s0[p].0 != s0[q].0);
                    }
                }
            },
            None => {
                proof {
                    lemma_get_absent(s0, a);
                }
                self.entries.push((a, v));
                proof {
                    lemma_sum_push(s0, (a, v));
                    assert forall|b: Address| b != a implies self.spec_get(b) == entries_get(
                        s0,
                        b,
                    ) by {
                        lemma_get_push(s0, (a, v), b);
                    }
                    lemma_get_push(s0, (a, v), a);
                    assert forall|p: int, q: int|
                        0 <= p < q < self.entries@.len() implies (#[trigger] self.entries@[p]).0
                        != (#[trigger] self.entries@[q]).0 by {
                        if q < s0.len() {
                            assert(s0[p].0 != s0[q].0);
                        } else {
                            assert(s0[p].0 != a);
                        }
                    }
                }
            },
        }
    }
}

} // verus!
