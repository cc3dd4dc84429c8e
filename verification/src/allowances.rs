use vstd::prelude::*;

use crate::account::Address;

verus! {

/// Value held by the first entry of `s` whose key is the pair `(o, p)`, or
/// zero when no entry has that key. Absence of a pair is semantically a zero
/// allowance. The pair is ordered: `(a, b)` and `(b, a)` are distinct keys.
pub closed spec fn pairs_get(s: Seq<(Address, Address, u128)>, o: Address, p: Address) -> u128
    decreases s.len(),
{
    if s.len() == 0 {
        0
    } else if s[0].0 == o && s[0].1 == p {
        s[0].2
    } else {
        pairs_get(s.drop_first(), o, p)
    }
}

/// No two entries of `s` share an (owner, spender) key.
pub open spec fn unique_pairs(s: Seq<(Address, Address, u128)>) -> bool {
    forall|i: int, j: int|
        0 <= i < j < s.len() ==> !((#[trigger] s[i]).0 == (#[trigger] s[j]).0 && s[i].1 == s[j].1)
}

/// When `i` is the first position keyed `(o, p)`, the lookup returns the
/// value stored there.
proof fn lemma_pairs_get_at_first_match(
    s: Seq<(Address, Address, u128)>,
    o: Address,
    p: Address,
    i: int,
)
    requires
        0 <= i < s.len(),
        s[i].0 == o && s[i].1 == p,
        forall|j: int| 0 <= j < i ==> !(s[j].0 == o && s[j].1 == p),
    ensures
        pairs_get(s, o, p) == s[i].2,
    decreases i,
{
    if i > 0 {
        lemma_pairs_get_at_first_match(s.drop_first(), o, p, i - 1);
    }
}

/// When no entry is keyed `(o, p)`, the lookup returns zero.
proof fn lemma_pairs_get_absent(s: Seq<(Address, Address, u128)>, o: Address, p: Address)
    requires
        forall|j: int| 0 <= j < s.len() ==> !(s[j].0 == o && s[j].1 == p),
    ensures
        pairs_get(s, o, p) == 0,
    decreases s.len(),
{
    if s.len() > 0 {
        lemma_pairs_get_absent(s.drop_first(), o, p);
    }
}

/// Overwriting the first entry keyed `(v.0, v.1)` changes the lookup at that
/// pair and nothing else.
proof fn lemma_pairs_get_update(
    s: Seq<(Address, Address, u128)>,
    i: int,
    v: (Address, Address, u128),
    o: Address,
    p: Address,
)
    requires
        0 <= i < s.len(),
        s[i].0 == v.0 && s[i].1 == v.1,
        forall|j: int| 0 <= j < i ==> !(s[j].0 == v.0 && s[j].1 == v.1),
    ensures
        pairs_get(s.update(i, v), o, p) == if o == v.0 && p == v.1 {
            v.2
        } else {
            pairs_get(s, o, p)
        },
    decreases i,
{
    if i == 0 {
        assert(s.update(0, v).drop_first() =~= s.drop_first());
    } else {
        lemma_pairs_get_update(s.drop_first(), i - 1, v, o, p);
        assert(s.update(i, v).drop_first() =~= s.drop_first().update(i - 1, v));
    }
}

/// Appending an entry with a fresh pair key changes the lookup at that pair
/// and nothing else.
proof fn lemma_pairs_get_push(
    s: Seq<(Address, Address, u128)>,
    v: (Address, Address, u128),
    o: Address,
    p: Address,
)
    requires
        forall|j: int| 0 <= j < s.len() ==> !(s[j].0 == v.0 && s[j].1 == v.1),
    ensures
        pairs_get(s.push(v), o, p) == if o == v.0 && p == v.1 {
            v.2
        } else {
            pairs_get(s, o, p)
        },
    decreases s.len(),
{
    if s.len() == 0 {
        assert(s.push(v)[0] == v);
        assert(s.push(v).drop_first() =~= Seq::<(Address, Address, u128)>::empty());
        assert(pairs_get(Seq::<(Address, Address, u128)>::empty(), o, p) == 0);
    } else {
        lemma_pairs_get_push(s.drop_first(), v, o, p);
        assert(s.push(v)[0] == s[0]);
        assert(s.push(v).drop_first() =~= s.drop_first().push(v));
    }
}

/// The allowance table: a mapping from an ordered (owner, spender) pair to
/// the unsigned quantity the spender may still move on the owner's behalf.
/// Keys are unique; a pair that was never written holds zero.
pub struct AllowanceTable {
    entries: Vec<(Address, Address, u128)>,
}

impl AllowanceTable {
    /// The quantity `spender` may still spend on behalf of `owner`; zero for
    /// unknown pairs.
    pub closed spec fn spec_get(self, owner: Address, spender: Address) -> u128 {
        pairs_get(self.entries@, owner, spender)
    }

    /// Each (owner, spender) pair has at most one entry.
    pub closed spec fn wf(self) -> bool {
        unique_pairs(self.entries@)
    }

    /// Creates an empty table: every pair holds zero.
    pub fn new() -> (t: AllowanceTable)
        ensures
            t.wf(),
            forall|o: Address, p: Address| t.spec_get(o, p) == 0,
    {
        let t = AllowanceTable { entries: Vec::new() };
        proof {
            assert forall|o: Address, p: Address| t.spec_get(o, p) == 0 by {
                lemma_pairs_get_absent(t.entries@, o, p);
            }
        }
        t
    }

    /// Position of the first entry keyed `(owner, spender)`, if any.
    fn find(&self, owner: Address, spender: Address) -> (r: Option<usize>)
        ensures
            match r {
                Some(i) => i < self.entries@.len() && self.entries@[i as int].0 == owner
                    && self.entries@[i as int].1 == spender && forall|j: int|
                    0 <= j < i ==> !(self.entries@[j].0 == owner && self.entries@[j].1 == spender),
                None => forall|j: int|
                    0 <= j < self.entries@.len() ==> !(self.entries@[j].0 == owner
                        && self.entries@[j].1 == spender),
            },
    {
        let mut i: usize = 0;
        while i < self.entries.len()
            invariant
                i <= self.entries@.len(),
                forall|j: int|
                    0 <= j < i ==> !(self.entries@[j].0 == owner && self.entries@[j].1 == spender),
            decreases self.entries@.len() - i,
        {
            if self.entries[i].0 == owner && self.entries[i].1 == spender {
                return Some(i);
            }
            i = i + 1;
        }
        None
    }

    /// Reads the allowance of `(owner, spender)`; zero when the pair was
    /// never written. Total: it never fails and has no side effect.
    pub fn get(&self, owner: Address, spender: Address) -> (r: u128)
        ensures
            r == self.spec_get(owner, spender),
    {
        match self.find(owner, spender) {
            Some(i) => {
                proof {
                    lemma_pairs_get_at_first_match(self.entries@, owner, spender, i as int);
                }
                self.entries[i].2
            },
            None => {
                proof {
                    lemma_pairs_get_absent(self.entries@, owner, spender);
                }
                0
            },
        }
    }

    /// Overwrites the allowance of `(owner, spender)` with `v` — an absolute
    /// store, not an increment. Every other pair keeps its allowance.
    pub fn set(&mut self, owner: Address, spender: Address, v: u128)
        requires
            old(self).wf(),
        ensures
            final(self).wf(),
            final(self).spec_get(owner, spender) == v,
            forall|o: Address, p: Address|
                !(o == owner && p == spender) ==> final(self).spec_get(o, p) == old(self).spec_get(
                    o,
                    p,
                ),
    {
        let ghost s0 = self.entries@;
        match self.find(owner, spender) {
            Some(i) => {
                self.entries[i] = (owner, spender, v);
                proof {
                    assert forall|o: Address, p: Address| !(o == owner && p == spender)
                        implies self.spec_get(o, p) == pairs_get(s0, o, p) by {
                        lemma_pairs_get_update(s0, i as int, (owner, spender, v), o, p);
                    }
                    lemma_pairs_get_update(s0, i as int, (owner, spender, v), owner, spender);
                    assert forall|x: int, y: int|
                        0 <= x < y < self.entries@.len() implies !((#[trigger] self.entries@[x]).0
                        == (#[trigger] self.entries@[y]).0 && self.entries@[x].1
                        == self.entries@[y].1) by {
                        assert(!(s0[x].0 == s0[y].0 && s0[x].1 == s0[y].1));
                    }
                }
            },
            None => {
                self.entries.push((owner, spender, v));
                proof {
                    assert forall|o: Address, p: Address| !(o == owner && p == spender)
                        implies self.spec_get(o, p) == pairs_get(s0, o, p) by {
                        lemma_pairs_get_push(s0, (owner, spender, v), o, p);
                    }
                    lemma_pairs_get_push(s0, (owner, spender, v), owner, spender);
                    assert forall|x: int, y: int|
                        0 <= x < y < self.entries@.len() implies !((#[trigger] self.entries@[x]).0
                        == (#[trigger] self.entries@[y]).0 && self.entries@[x].1
                        == self.entries@[y].1) by {
                        if y < s0.len() {
                            assert(!(s0[x].0 == s0[y].0 && s0[x].1 == s0[y].1));
                        } else {
                            assert(!(s0[x].0 == owner && s0[x].1 == spender));
                        }
                    }
                }
            },
        }
    }
}

} // verus!
