//! Holder records of the reward index ledger, and the map that stores them.
//!
//! The map keeps one record per holder address, in strictly ascending
//! lexicographic address order, which is also the order paginated queries
//! walk. Alongside the map this module defines the summations that the
//! ledger's conservation argument is stated over: the total of all tracked
//! balances, and the total of all rewards that have been credited to holders
//! but not yet claimed (settled pending rewards plus the still-unsettled
//! entitlement against the current global index).

use vstd::prelude::*;

use crate::bytes::{
    lex_cmp, lex_lt, lemma_lex_irreflexive, lemma_lex_lt_neq, lemma_lex_transitive, Cmp,
};
use crate::fixed::Decimal;

verus! {

/// One account tracked by the reward ledger: its derivative-token balance as
/// mirrored from the token contract, the global-index snapshot it was last
/// settled at, and rewards credited but not yet claimed.
#[derive(Clone, Copy, PartialEq, Eq, Structural, Debug)]
pub struct Holder {
    pub balance: u128,
    pub index: Decimal,
    pub pending_rewards: Decimal,
}

/// The record a holder defaults to before any balance-changing event.
pub open spec fn zero_holder() -> Holder {
    Holder { balance: 0, index: Decimal { atto: 0 }, pending_rewards: Decimal { atto: 0 } }
}

impl Holder {
    pub fn zero() -> (r: Holder)
        ensures
            r == zero_holder(),
    {
        Holder { balance: 0, index: Decimal { atto: 0 }, pending_rewards: Decimal { atto: 0 } }
    }
}

/// One row of a paginated holders query.
#[derive(Clone, Debug, PartialEq, Eq)]
pub struct HolderResponse {
    pub address: Vec<u8>,
    pub balance: u128,
    pub index: Decimal,
    pub pending_rewards: Decimal,
}

/// Entries stand in strictly ascending lexicographic address order; this
/// also makes addresses unique.
pub open spec fn sorted(s: Seq<(Vec<u8>, Holder)>) -> bool {
    forall|i: int, j: int|
        0 <= i && i < j && j < s.len() ==> lex_lt(#[trigger] s[i].0@, #[trigger] s[j].0@)
}

/// Some entry carries this address.
pub open spec fn spec_contains(s: Seq<(Vec<u8>, Holder)>, k: Seq<u8>) -> bool
    decreases s.len(),
{
    s.len() > 0 && (s[0].0@ == k || spec_contains(s.drop_first(), k))
}

/// The record stored under this address, defaulting to the zero record for
/// an address never seen.
pub open spec fn spec_get(s: Seq<(Vec<u8>, Holder)>, k: Seq<u8>) -> Holder
    decreases s.len(),
{
    if s.len() == 0 {
        zero_holder()
    } else if s[0].0@ == k {
        s[0].1
    } else {
        spec_get(s.drop_first(), k)
    }
}

/// Dropping the first entry of a sorted sequence keeps it sorted.
pub proof fn lemma_sorted_drop_first(s: Seq<(Vec<u8>, Holder)>)
    requires
        sorted(s),
        s.len() > 0,
    ensures
        sorted(s.drop_first()),
{
    assert forall|a: int, b: int|
        0 <= a && a < b && b < s.drop_first().len() implies lex_lt(
        #[trigger] s.drop_first()[a].0@,
        #[trigger] s.drop_first()[b].0@,
    ) by {
        assert(s.drop_first()[a] == s[a + 1]);
        assert(s.drop_first()[b] == s[b + 1]);
    }
}

/// In a sorted sequence, a lookup of the address stored at index `i` finds
/// exactly the record at index `i`.
pub proof fn lemma_get_at(s: Seq<(Vec<u8>, Holder)>, i: int)
    requires
        sorted(s),
        0 <= i < s.len(),
    ensures
        spec_get(s, s[i].0@) == s[i].1,
        spec_contains(s, s[i].0@),
    decreases s.len(),
{
    if i > 0 {
        lemma_lex_lt_neq(s[0].0@, s[i].0@);
        lemma_sorted_drop_first(s);
        assert(s.drop_first()[i - 1] == s[i]);
        lemma_get_at(s.drop_first(), i - 1);
    }
}

/// A lookup of an address no entry carries defaults to the zero record.
pub proof fn lemma_get_absent(s: Seq<(Vec<u8>, Holder)>, k: Seq<u8>)
    requires
        forall|i: int| 0 <= i < s.len() ==> (#[trigger] s[i].0@) != k,
    ensures
        spec_get(s, k) == zero_holder(),
        !spec_contains(s, k),
    decreases s.len(),
{
    if s.len() > 0 {
        assert(forall|i: int|
            0 <= i < s.drop_first().len() ==> (#[trigger] s.drop_first()[i].0@) == s[i + 1].0@);
        lemma_get_absent(s.drop_first(), k);
    }
}

/// Replacing the record at index `i` (keeping its address) changes lookups
/// of that address to the new record and no other lookup.
pub proof fn lemma_get_of_update(s: Seq<(Vec<u8>, Holder)>, i: int, v: Holder, k2: Seq<u8>)
    requires
        sorted(s),
        0 <= i < s.len(),
    ensures
        spec_get(s.update(i, (s[i].0, v)), k2) == (if s[i].0@ == k2 {
            v
        } else {
            spec_get(s, k2)
        }),
        spec_contains(s.update(i, (s[i].0, v)), k2) == spec_contains(s, k2),
    decreases s.len(),
{
    let t = s.update(i, (s[i].0, v));
    if i == 0 {
        assert(t.drop_first() =~= s.drop_first());
    } else {
        assert(t[0] == s[0]);
        lemma_sorted_drop_first(s);
        assert(s.drop_first()[i - 1] == s[i]);
        assert(t.drop_first() =~= s.drop_first().update(i - 1, (s[i].0, v)));
        lemma_get_of_update(s.drop_first(), i - 1, v, k2);
        if s[0].0@ == k2 {
            lemma_lex_lt_neq(s[0].0@, s[i].0@);
        }
    }
}

/// Inserting a record at its sorted position keeps the sequence sorted,
/// makes lookups of its address find it, and changes no other lookup.
pub proof fn lemma_get_of_insert(
    s: Seq<(Vec<u8>, Holder)>,
    p: int,
    kv: Vec<u8>,
    v: Holder,
    k2: Seq<u8>,
)
    requires
        sorted(s),
        0 <= p <= s.len(),
        forall|j: int| 0 <= j < p ==> lex_lt(#[trigger] s[j].0@, kv@),
        forall|j: int| p <= j < s.len() ==> lex_lt(kv@, #[trigger] s[j].0@),
    ensures
        sorted(s.insert(p, (kv, v))),
        spec_get(s.insert(p, (kv, v)), k2) == (if kv@ == k2 {
            v
        } else {
            spec_get(s, k2)
        }),
        spec_contains(s.insert(p, (kv, v)), k2) == (kv@ == k2 || spec_contains(s, k2)),
    decreases s.len(),
{
    let t = s.insert(p, (kv, v));
    s.insert_ensures(p, (kv, v));
    if p == 0 {
        assert(t.drop_first() =~= s);
        assert(t[0] == (kv, v));
        assert(sorted(t)) by {
            assert forall|a: int, b: int|
                0 <= a && a < b && b < t.len() implies lex_lt(
                #[trigger] t[a].0@,
                #[trigger] t[b].0@,
            ) by {
                if a == 0 {
                    assert(t[b] == s[b - 1]);
                } else {
                    assert(t[a] == s[a - 1] && t[b] == s[b - 1]);
                }
            }
        }
        if kv@ == k2 {
        } else {
        }
    } else {
        assert(t[0] == s[0]);
        lemma_sorted_drop_first(s);
        assert(forall|j: int|
            0 <= j < p - 1 ==> lex_lt(#[trigger] s.drop_first()[j].0@, kv@));
        assert(forall|j: int|
            p - 1 <= j < s.drop_first().len() ==> lex_lt(kv@, #[trigger] s.drop_first()[j].0@));
        assert(t.drop_first() =~= s.drop_first().insert(p - 1, (kv, v)));
        lemma_get_of_insert(s.drop_first(), p - 1, kv, v, k2);
        if s[0].0@ == k2 {
            lemma_lex_lt_neq(s[0].0@, kv@);
        }
        assert(sorted(t)) by {
            let u = t.drop_first();
            assert forall|a: int, b: int|
                0 <= a && a < b && b < t.len() implies lex_lt(
                #[trigger] t[a].0@,
                #[trigger] t[b].0@,
            ) by {
                if a == 0 {
                    assert(t[b] == u[b - 1]);
                    if b - 1 < p - 1 {
                        assert(u[b - 1] == s.drop_first()[b - 1]);
                        assert(s.drop_first()[b - 1] == s[b]);
                    } else if b - 1 == p - 1 {
                        assert(u[b - 1] == (kv, v));
                    } else {
                        assert(u[b - 1] == s.drop_first()[b - 2]);
                        assert(s.drop_first()[b - 2] == s[b - 1]);
                    }
                } else {
                    assert(t[a] == u[a - 1] && t[b] == u[b - 1]);
                    assert(sorted(u));
                }
            }
        }
    }
}

/// Sum of all tracked balances.
pub open spec fn sum_balances(s: Seq<(Vec<u8>, Holder)>) -> int
    decreases s.len(),
{
    if s.len() == 0 {
        0
    } else {
        s[0].1.balance + sum_balances(s.drop_first())
    }
}

/// Everything a holder is owed at global index `gi` (in atto-units):
/// settled pending rewards plus the unsettled entitlement
/// balance x (gi - index).
pub open spec fn owed(h: Holder, gi: int) -> int {
    h.pending_rewards.atto + h.balance * (gi - h.index.atto)
}

/// Sum over all holders of what they are owed at global index `gi`.
pub open spec fn sum_owed(s: Seq<(Vec<u8>, Holder)>, gi: int) -> int
    decreases s.len(),
{
    if s.len() == 0 {
        0
    } else {
        owed(s[0].1, gi) + sum_owed(s.drop_first(), gi)
    }
}

/// Every stored index snapshot is at or below the global index `gi`.
pub open spec fn indices_at_most(s: Seq<(Vec<u8>, Holder)>, gi: int) -> bool {
    forall|i: int| 0 <= i < s.len() ==> (#[trigger] s[i].1.index.atto) <= gi
}

pub proof fn lemma_sum_balances_update(s: Seq<(Vec<u8>, Holder)>, i: int, x: (Vec<u8>, Holder))
    requires
        0 <= i < s.len(),
    ensures
        sum_balances(s.update(i, x)) == sum_balances(s) - s[i].1.balance + x.1.balance,
    decreases s.len(),
{
    let t = s.update(i, x);
    if i == 0 {
        assert(t.drop_first() =~= s.drop_first());
    } else {
        assert(t.drop_first() =~= s.drop_first().update(i - 1, x));
        lemma_sum_balances_update(s.drop_first(), i - 1, x);
    }
}

pub proof fn lemma_sum_balances_insert(s: Seq<(Vec<u8>, Holder)>, p: int, x: (Vec<u8>, Holder))
    requires
        0 <= p <= s.len(),
    ensures
        sum_balances(s.insert(p, x)) == sum_balances(s) + x.1.balance,
    decreases s.len(),
{
    let t = s.insert(p, x);
    if p == 0 {
        assert(t.drop_first() =~= s);
    } else {
        assert(t[0] == s[0]);
        assert(t.drop_first() =~= s.drop_first().insert(p - 1, x));
        lemma_sum_balances_insert(s.drop_first(), p - 1, x);
    }
}

pub proof fn lemma_sum_owed_update(s: Seq<(Vec<u8>, Holder)>, i: int, x: (Vec<u8>, Holder), gi: int)
    requires
        0 <= i < s.len(),
    ensures
        sum_owed(s.update(i, x), gi) == sum_owed(s, gi) - owed(s[i].1, gi) + owed(x.1, gi),
    decreases s.len(),
{
    let t = s.update(i, x);
    if i == 0 {
        assert(t.drop_first() =~= s.drop_first());
    } else {
        assert(t.drop_first() =~= s.drop_first().update(i - 1, x));
        lemma_sum_owed_update(s.drop_first(), i - 1, x, gi);
    }
}

pub proof fn lemma_sum_owed_insert(s: Seq<(Vec<u8>, Holder)>, p: int, x: (Vec<u8>, Holder), gi: int)
    requires
        0 <= p <= s.len(),
    ensures
        sum_owed(s.insert(p, x), gi) == sum_owed(s, gi) + owed(x.1, gi),
    decreases s.len(),
{
    let t = s.insert(p, x);
    if p == 0 {
        assert(t.drop_first() =~= s);
    } else {
        assert(t[0] == s[0]);
        assert(t.drop_first() =~= s.drop_first().insert(p - 1, x));
        lemma_sum_owed_insert(s.drop_first(), p - 1, x, gi);
    }
}

/// Raising the global index raises the owed total by exactly
/// (sum of balances) x (index increase).
pub proof fn lemma_sum_owed_index_raise(s: Seq<(Vec<u8>, Holder)>, g1: int, g2: int)
    ensures
        sum_owed(s, g2) == sum_owed(s, g1) + sum_balances(s) * (g2 - g1),
    decreases s.len(),
{
    if s.len() == 0 {
        assert(sum_balances(s) * (g2 - g1) == 0) by (nonlinear_arith)
            requires
                sum_balances(s) == 0,
        ;
    } else {
        lemma_sum_owed_index_raise(s.drop_first(), g1, g2);
        let h = s[0].1;
        assert(h.balance * (g2 - h.index.atto) == h.balance * (g1 - h.index.atto) + h.balance * (
        g2 - g1)) by (nonlinear_arith);
        assert((sum_balances(s.drop_first()) + h.balance) * (g2 - g1) == sum_balances(
            s.drop_first(),
        ) * (g2 - g1) + h.balance * (g2 - g1)) by (nonlinear_arith);
    }
}

/// An address that is not stored looks up to the zero record.
pub proof fn lemma_get_not_contains(s: Seq<(Vec<u8>, Holder)>, k: Seq<u8>)
    requires
        !spec_contains(s, k),
    ensures
        spec_get(s, k) == zero_holder(),
    decreases s.len(),
{
    if s.len() > 0 {
        lemma_get_not_contains(s.drop_first(), k);
    }
}

/// How one [`HolderMap::set`] call moves the ledger's summations: the
/// balance total changes by the difference at the written address, the owed
/// total changes by the owed difference there, and index snapshots stay
/// bounded if the written one is.
pub proof fn lemma_set_effect(
    e0: Seq<(Vec<u8>, Holder)>,
    e1: Seq<(Vec<u8>, Holder)>,
    k: Seq<u8>,
    v: Holder,
    gi: int,
)
    requires
        sorted(e0),
        spec_contains(e0, k) ==> exists|i: int|
            0 <= i < e0.len() && e0[i].0@ == k && e1 == e0.update(i, (e0[i].0, v)),
        !spec_contains(e0, k) ==> exists|p: int, kv: Vec<u8>|
            0 <= p <= e0.len() && kv@ == k && e1 == e0.insert(p, (kv, v)),
    ensures
        sum_balances(e1) == sum_balances(e0) - spec_get(e0, k).balance + v.balance,
        sum_owed(e1, gi) == sum_owed(e0, gi) - owed(spec_get(e0, k), gi) + owed(v, gi),
        indices_at_most(e0, gi) && v.index.atto <= gi ==> indices_at_most(e1, gi),
{
    if spec_contains(e0, k) {
        let i = choose|i: int|
            0 <= i < e0.len() && e0[i].0@ == k && e1 == e0.update(i, (e0[i].0, v));
        lemma_get_at(e0, i);
        lemma_sum_balances_update(e0, i, (e0[i].0, v));
        lemma_sum_owed_update(e0, i, (e0[i].0, v), gi);
        if indices_at_most(e0, gi) && v.index.atto <= gi {
            assert forall|j: int|
                0 <= j < e1.len() implies (#[trigger] e1[j].1.index.atto) <= gi by {
                if j != i {
                    assert(e1[j] == e0[j]);
                }
            }
        }
    } else {
        lemma_get_not_contains(e0, k);
        let (p, kv) = choose|p: int, kv: Vec<u8>|
            0 <= p <= e0.len() && kv@ == k && e1 == e0.insert(p, (kv, v));
        assert(owed(zero_holder(), gi) == 0) by (nonlinear_arith);
        lemma_sum_balances_insert(e0, p, (kv, v));
        lemma_sum_owed_insert(e0, p, (kv, v), gi);
        if indices_at_most(e0, gi) && v.index.atto <= gi {
            e0.insert_ensures(p, (kv, v));
            assert forall|j: int|
                0 <= j < e1.len() implies (#[trigger] e1[j].1.index.atto) <= gi by {
                if j < p {
                    assert(e1[j] == e0[j]);
                } else if j == p {
                    assert(e1[j] == (kv, v));
                } else {
                    assert(e1[j] == e0[j - 1]);
                }
            }
        }
    }
}

/// The holder map: an association list in strictly ascending address order.
pub struct HolderMap {
    pub entries: Vec<(Vec<u8>, Holder)>,
}

impl HolderMap {
    pub fn new() -> (r: HolderMap)
        ensures
            r.entries@.len() == 0,
            sorted(r.entries@),
    {
        HolderMap { entries: Vec::new() }
    }

    /// Where `k` is stored, or where it would have to be inserted to keep
    /// the entries sorted: `(index, found)`.
    fn position(&self, k: &Vec<u8>) -> (r: (usize, bool))
        requires
            sorted(self.entries@),
        ensures
            r.1 ==> r.0 < self.entries@.len() && self.entries@[r.0 as int].0@ == k@,
            !r.1 ==> r.0 <= self.entries@.len() && (forall|i: int|
                0 <= i < r.0 ==> lex_lt(#[trigger] self.entries@[i].0@, k@)) && (forall|i: int|
                r.0 <= i < self.entries@.len() ==> lex_lt(k@, #[trigger] self.entries@[i].0@)),
    {
        let n = self.entries.len();
        let mut i: usize = 0;
        while i < n
            invariant
                n == self.entries@.len(),
                i <= n,
                sorted(self.entries@),
                forall|j: int| 0 <= j < i ==> lex_lt(#[trigger] self.entries@[j].0@, k@),
            decreases n - i,
        {
            match lex_cmp(&self.entries[i].0, k) {
                Cmp::Less => {
                    i = i + 1;
                },
                Cmp::Equal => {
                    return (i, true);
                },
                Cmp::Greater => {
                    assert forall|j: int|
                        i <= j < self.entries@.len() implies lex_lt(
                        k@,
                        #[trigger] self.entries@[j].0@,
                    ) by {
                        if j != i {
                            lemma_lex_transitive(k@, self.entries@[i as int].0@, self.entries@[j].0@);
                        }
                    }
                    return (i, false);
                },
            }
        }
        (i, false)
    }

    /// The record stored under `k`, defaulting to the zero record.
    pub fn get(&self, k: &Vec<u8>) -> (r: Holder)
        requires
            sorted(self.entries@),
        ensures
            r == spec_get(self.entries@, k@),
    {
        let (i, found) = self.position(k);
        if found {
            proof {
                lemma_get_at(self.entries@, i as int);
            }
            self.entries[i].1
        } else {
            proof {
                assert forall|j: int|
                    0 <= j < self.entries@.len() implies (#[trigger] self.entries@[j].0@)
                    != k@ by {
                    if j < i {
                        lemma_lex_lt_neq(self.entries@[j].0@, k@);
                    } else {
                        lemma_lex_lt_neq(k@, self.entries@[j].0@);
                        if self.entries@[j].0@ == k@ {
                            lemma_lex_irreflexive(k@);
                        }
                    }
                }
                lemma_get_absent(self.entries@, k@);
            }
            Holder::zero()
        }
    }

    /// Store `v` under `k`, replacing the record already there or inserting
    /// a new one at its sorted position.
    pub fn set(&mut self, k: &Vec<u8>, v: Holder)
        requires
            sorted(old(self).entries@),
        ensures
            sorted(final(self).entries@),
            spec_contains(old(self).entries@, k@) ==> exists|i: int|
                0 <= i < old(self).entries@.len() && old(self).entries@[i].0@ == k@
                    && final(self).entries@ == old(self).entries@.update(
                    i,
                    (old(self).entries@[i].0, v),
                ),
            !spec_contains(old(self).entries@, k@) ==> exists|p: int, kv: Vec<u8>|
                0 <= p <= old(self).entries@.len() && kv@ == k@ && final(self).entries@
                    == old(self).entries@.insert(p, (kv, v)),
            spec_get(final(self).entries@, k@) == v,
            forall|k2: Seq<u8>|
                k2 != k@ ==> spec_get(final(self).entries@, k2) == spec_get(
                    old(self).entries@,
                    k2,
                ),
            final(self).entries@.len() == old(self).entries@.len() + (
            if spec_contains(old(self).entries@, k@) {
                0int
            } else {
                1int
            }),
    {
        let ghost s0 = self.entries@;
        let (i, found) = self.position(k);
        if found {
            proof {
                lemma_get_at(s0, i as int);
            }
            let e = self.entries.remove(i);
            self.entries.insert(i, (e.0, v));
            proof {
                let t = self.entries@;
                assert(t =~= s0.update(i as int, (s0[i as int].0, v)));
                assert(sorted(t)) by {
                    assert(forall|a: int| 0 <= a < t.len() ==> t[a].0@ == s0[a].0@);
                }
                assert forall|k2: Seq<u8>| true implies #[trigger] spec_get(t, k2) == (if k2 == k@ {
                    v
                } else {
                    spec_get(s0, k2)
                }) by {
                    lemma_get_of_update(s0, i as int, v, k2);
                }
            }
        } else {
            proof {
                assert forall|j: int|
                    0 <= j < s0.len() implies (#[trigger] s0[j].0@) != k@ by {
                    if j < i {
                        lemma_lex_lt_neq(s0[j].0@, k@);
                    } else {
                        if s0[j].0@ == k@ {
                            lemma_lex_irreflexive(k@);
                        }
                    }
                }
                lemma_get_absent(s0, k@);
            }
            let kk = clone_bytes(k);
            let ghost kkv = kk;
            self.entries.insert(i, (kk, v));
            proof {
                let t = self.entries@;
                assert(t =~= s0.insert(i as int, (kkv, v)));
                assert forall|k2: Seq<u8>| true implies #[trigger] spec_get(t, k2) == (if k2 == k@ {
                    v
                } else {
                    spec_get(s0, k2)
                }) by {
                    lemma_get_of_insert(s0, i as int, kkv, v, k2);
                }
                lemma_get_of_insert(s0, i as int, kkv, v, k@);
            }
        }
    }
}

/// A plain copy of a byte string.
pub fn clone_bytes(v: &Vec<u8>) -> (r: Vec<u8>)
    ensures
        r@ == v@,
{
    let mut r: Vec<u8> = Vec::new();
    let mut i: usize = 0;
    while i < v.len()
        invariant
            i <= v@.len(),
            r@ == v@.take(i as int),
        decreases v@.len() - i,
    {
        r.push(v[i]);
        proof {
            assert(r@ =~= v@.take(i as int + 1));
        }
        i = i + 1;
    }
    proof {
        assert(v@.take(v@.len() as int) =~= v@);
    }
    r
}

} // verus!
