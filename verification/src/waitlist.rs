//! Per-user unbond requests, keyed by (address, batch id).
//!
//! Each entry records how many fee-adjusted derivative tokens one user
//! contributed to one unbonding batch. Entries are kept in strictly
//! ascending (address, batch id) order; they are accumulated by unbond
//! requests and consumed — removed — when the user withdraws the matured
//! batch, which is what makes a second withdrawal find nothing.

use vstd::prelude::*;

use crate::bytes::{lex_cmp, lex_lt, lemma_lex_irreflexive, lemma_lex_lt_neq, lemma_lex_transitive, Cmp};

verus! {

/// One user's stake in one unbonding batch: the fee-adjusted amount of
/// derivative tokens they asked to unbond in it.
#[derive(Clone, Debug, PartialEq, Eq)]
pub struct WaitEntry {
    pub address: Vec<u8>,
    pub batch_id: u64,
    pub amount: u128,
}

/// Strict order on (address, batch id) keys: addresses lexicographically,
/// batches numerically within one address.
pub open spec fn key_lt(a_addr: Seq<u8>, a_batch: u64, b_addr: Seq<u8>, b_batch: u64) -> bool {
    lex_lt(a_addr, b_addr) || (a_addr == b_addr && a_batch < b_batch)
}

pub proof fn lemma_key_lt_transitive(
    a1: Seq<u8>,
    a2: u64,
    b1: Seq<u8>,
    b2: u64,
    c1: Seq<u8>,
    c2: u64,
)
    requires
        key_lt(a1, a2, b1, b2),
        key_lt(b1, b2, c1, c2),
    ensures
        key_lt(a1, a2, c1, c2),
{
    if lex_lt(a1, b1) && lex_lt(b1, c1) {
        lemma_lex_transitive(a1, b1, c1);
    }
}

pub proof fn lemma_key_lt_irreflexive(a1: Seq<u8>, a2: u64)
    ensures
        !key_lt(a1, a2, a1, a2),
{
    lemma_lex_irreflexive(a1);
}

/// Entries stand in strictly ascending (address, batch id) order; this also
/// makes the keys unique.
pub open spec fn wl_sorted(s: Seq<WaitEntry>) -> bool {
    forall|i: int, j: int|
        0 <= i && i < j && j < s.len() ==> key_lt(
            (#[trigger] s[i]).address@,
            s[i].batch_id,
            (#[trigger] s[j]).address@,
            s[j].batch_id,
        )
}

/// Some entry carries this key.
pub open spec fn wl_contains(s: Seq<WaitEntry>, addr: Seq<u8>, batch: u64) -> bool
    decreases s.len(),
{
    s.len() > 0 && ((s[0].address@ == addr && s[0].batch_id == batch) || wl_contains(
        s.drop_first(),
        addr,
        batch,
    ))
}

/// The amount stored under this key, defaulting to zero for a key never
/// seen.
pub open spec fn wl_get(s: Seq<WaitEntry>, addr: Seq<u8>, batch: u64) -> u128
    decreases s.len(),
{
    if s.len() == 0 {
        0
    } else if s[0].address@ == addr && s[0].batch_id == batch {
        s[0].amount
    } else {
        wl_get(s.drop_first(), addr, batch)
    }
}

pub proof fn lemma_wl_sorted_drop_first(s: Seq<WaitEntry>)
    requires
        wl_sorted(s),
        s.len() > 0,
    ensures
        wl_sorted(s.drop_first()),
{
    assert forall|a: int, b: int|
        0 <= a && a < b && b < s.drop_first().len() implies key_lt(
        (#[trigger] s.drop_first()[a]).address@,
        s.drop_first()[a].batch_id,
        (#[trigger] s.drop_first()[b]).address@,
        s.drop_first()[b].batch_id,
    ) by {
        assert(s.drop_first()[a] == s[a + 1]);
        assert(s.drop_first()[b] == s[b + 1]);
    }
}

/// In a sorted wait list the key at index `i` looks up the entry at `i`.
pub proof fn lemma_wl_get_at(s: Seq<WaitEntry>, i: int)
    requires
        wl_sorted(s),
        0 <= i < s.len(),
    ensures
        wl_get(s, s[i].address@, s[i].batch_id) == s[i].amount,
        wl_contains(s, s[i].address@, s[i].batch_id),
    decreases s.len(),
{
    if i > 0 {
        if s[0].address@ == s[i].address@ && s[0].batch_id == s[i].batch_id {
            lemma_key_lt_irreflexive(s[0].address@, s[0].batch_id);
        }
        lemma_wl_sorted_drop_first(s);
        assert(s.drop_first()[i - 1] == s[i]);
        lemma_wl_get_at(s.drop_first(), i - 1);
    }
}

/// A key no entry carries looks up to zero.
pub proof fn lemma_wl_get_absent(s: Seq<WaitEntry>, addr: Seq<u8>, batch: u64)
    requires
        forall|i: int|
            0 <= i < s.len() ==> !((#[trigger] s[i]).address@ == addr && s[i].batch_id == batch),
    ensures
        wl_get(s, addr, batch) == 0,
        !wl_contains(s, addr, batch),
    decreases s.len(),
{
    if s.len() > 0 {
        assert(forall|i: int|
            0 <= i < s.drop_first().len() ==> (#[trigger] s.drop_first()[i]) == s[i + 1]);
        lemma_wl_get_absent(s.drop_first(), addr, batch);
    }
}

/// Replacing the entry at index `i` (keeping its key) changes the lookup of
/// that key to the new amount and no other lookup.
pub proof fn lemma_wl_get_of_update(s: Seq<WaitEntry>, i: int, v: WaitEntry, k2: Seq<u8>, b2: u64)
    requires
        wl_sorted(s),
        0 <= i < s.len(),
        v.address@ == s[i].address@,
        v.batch_id == s[i].batch_id,
    ensures
        wl_get(s.update(i, v), k2, b2) == (if s[i].address@ == k2 && s[i].batch_id == b2 {
            v.amount
        } else {
            wl_get(s, k2, b2)
        }),
        wl_contains(s.update(i, v), k2, b2) == wl_contains(s, k2, b2),
    decreases s.len(),
{
    let t = s.update(i, v);
    if i == 0 {
        assert(t.drop_first() =~= s.drop_first());
    } else {
        assert(t[0] == s[0]);
        lemma_wl_sorted_drop_first(s);
        assert(s.drop_first()[i - 1] == s[i]);
        assert(t.drop_first() =~= s.drop_first().update(i - 1, v));
        lemma_wl_get_of_update(s.drop_first(), i - 1, v, k2, b2);
        if s[0].address@ == k2 && s[0].batch_id == b2 {
            lemma_key_lt_irreflexive(k2, b2);
        }
    }
}

/// Inserting an entry at its sorted position keeps the list sorted, makes
/// its key look up to it, and changes no other lookup.
pub proof fn lemma_wl_get_of_insert(s: Seq<WaitEntry>, p: int, v: WaitEntry, k2: Seq<u8>, b2: u64)
    requires
        wl_sorted(s),
        0 <= p <= s.len(),
        forall|j: int|
            0 <= j < p ==> key_lt((#[trigger] s[j]).address@, s[j].batch_id, v.address@, v.batch_id),
        forall|j: int|
            p <= j < s.len() ==> key_lt(
                v.address@,
                v.batch_id,
                (#[trigger] s[j]).address@,
                s[j].batch_id,
            ),
    ensures
        wl_sorted(s.insert(p, v)),
        wl_get(s.insert(p, v), k2, b2) == (if v.address@ == k2 && v.batch_id == b2 {
            v.amount
        } else {
            wl_get(s, k2, b2)
        }),
        wl_contains(s.insert(p, v), k2, b2) == ((v.address@ == k2 && v.batch_id == b2)
            || wl_contains(s, k2, b2)),
    decreases s.len(),
{
    let t = s.insert(p, v);
    s.insert_ensures(p, v);
    if p == 0 {
        assert(t.drop_first() =~= s);
        assert(t[0] == v);
        assert(wl_sorted(t)) by {
            assert forall|a: int, b: int|
                0 <= a && a < b && b < t.len() implies key_lt(
                (#[trigger] t[a]).address@,
                t[a].batch_id,
                (#[trigger] t[b]).address@,
                t[b].batch_id,
            ) by {
                if a == 0 {
                    assert(t[b] == s[b - 1]);
                } else {
                    assert(t[a] == s[a - 1] && t[b] == s[b - 1]);
                }
            }
        }
    } else {
        assert(t[0] == s[0]);
        lemma_wl_sorted_drop_first(s);
        assert(forall|j: int|
            0 <= j < p - 1 ==> key_lt(
                (#[trigger] s.drop_first()[j]).address@,
                s.drop_first()[j].batch_id,
                v.address@,
                v.batch_id,
            ));
        assert(forall|j: int|
            p - 1 <= j < s.drop_first().len() ==> key_lt(
                v.address@,
                v.batch_id,
                (#[trigger] s.drop_first()[j]).address@,
                s.drop_first()[j].batch_id,
            ));
        assert(t.drop_first() =~= s.drop_first().insert(p - 1, v));
        lemma_wl_get_of_insert(s.drop_first(), p - 1, v, k2, b2);
        if s[0].address@ == k2 && s[0].batch_id == b2 {
            lemma_key_lt_irreflexive(k2, b2);
        }
        assert(wl_sorted(t)) by {
            let u = t.drop_first();
            assert forall|a: int, b: int|
                0 <= a && a < b && b < t.len() implies key_lt(
                (#[trigger] t[a]).address@,
                t[a].batch_id,
                (#[trigger] t[b]).address@,
                t[b].batch_id,
            ) by {
                if a == 0 {
                    assert(t[b] == u[b - 1]);
                    if b - 1 < p - 1 {
                        assert(u[b - 1] == s.drop_first()[b - 1]);
                        assert(s.drop_first()[b - 1] == s[b]);
                    } else if b - 1 == p - 1 {
                        assert(u[b - 1] == v);
                    } else {
                        assert(u[b - 1] == s.drop_first()[b - 2]);
                        assert(s.drop_first()[b - 2] == s[b - 1]);
                    }
                } else {
                    assert(t[a] == u[a - 1] && t[b] == u[b - 1]);
                    assert(wl_sorted(u));
                }
            }
        }
    }
}

/// A key some entry carries names an index that carries it.
pub proof fn lemma_wl_contains_index(s: Seq<WaitEntry>, addr: Seq<u8>, batch: u64)
    requires
        wl_contains(s, addr, batch),
    ensures
        exists|i: int|
            0 <= i < s.len() && (#[trigger] s[i]).address@ == addr && s[i].batch_id == batch,
    decreases s.len(),
{
    if s[0].address@ == addr && s[0].batch_id == batch {
        assert(0 <= 0 < s.len() && s[0].address@ == addr && s[0].batch_id == batch);
    } else {
        lemma_wl_contains_index(s.drop_first(), addr, batch);
        let i = choose|i: int|
            0 <= i < s.drop_first().len() && (#[trigger] s.drop_first()[i]).address@ == addr
                && s.drop_first()[i].batch_id == batch;
        assert(s[i + 1] == s.drop_first()[i]);
    }
}

/// Removing one entry keeps the wait list sorted.
pub proof fn lemma_wl_sorted_remove(s: Seq<WaitEntry>, i: int)
    requires
        wl_sorted(s),
        0 <= i < s.len(),
    ensures
        wl_sorted(s.remove(i)),
{
    let t = s.remove(i);
    s.remove_ensures(i);
    assert forall|a: int, b: int|
        0 <= a && a < b && b < t.len() implies key_lt(
        (#[trigger] t[a]).address@,
        t[a].batch_id,
        (#[trigger] t[b]).address@,
        t[b].batch_id,
    ) by {
        let a0 = if a < i {
            a
        } else {
            a + 1
        };
        let b0 = if b < i {
            b
        } else {
            b + 1
        };
        assert(t[a] == s[a0] && t[b] == s[b0]);
    }
}

/// The unbond wait list: entries in strictly ascending (address, batch id)
/// order.
pub struct Waitlist {
    pub entries: Vec<WaitEntry>,
}

/// Three-way comparison of two (address, batch id) keys.
fn key_cmp(a_addr: &Vec<u8>, a_batch: u64, b_addr: &Vec<u8>, b_batch: u64) -> (r: Cmp)
    ensures
        (r is Less) == key_lt(a_addr@, a_batch, b_addr@, b_batch),
        (r is Greater) == key_lt(b_addr@, b_batch, a_addr@, a_batch),
        (r is Equal) == (a_addr@ == b_addr@ && a_batch == b_batch),
{
    match lex_cmp(a_addr, b_addr) {
        Cmp::Less => Cmp::Less,
        Cmp::Greater => Cmp::Greater,
        Cmp::Equal => {
            if a_batch < b_batch {
                Cmp::Less
            } else if a_batch > b_batch {
                Cmp::Greater
            } else {
                Cmp::Equal
            }
        },
    }
}

impl Waitlist {
    pub fn new() -> (r: Waitlist)
        ensures
            r.entries@.len() == 0,
            wl_sorted(r.entries@),
    {
        Waitlist { entries: Vec::new() }
    }

    /// Where the key is stored, or where it would have to be inserted to
    /// keep the entries sorted: `(index, found)`.
    fn position(&self, addr: &Vec<u8>, batch: u64) -> (r: (usize, bool))
        requires
            wl_sorted(self.entries@),
        ensures
            r.1 ==> r.0 < self.entries@.len() && self.entries@[r.0 as int].address@ == addr@
                && self.entries@[r.0 as int].batch_id == batch,
            !r.1 ==> r.0 <= self.entries@.len() && (forall|i: int|
                0 <= i < r.0 ==> key_lt(
                    (#[trigger] self.entries@[i]).address@,
                    self.entries@[i].batch_id,
                    addr@,
                    batch,
                )) && (forall|i: int|
                r.0 <= i < self.entries@.len() ==> key_lt(
                    addr@,
                    batch,
                    (#[trigger] self.entries@[i]).address@,
                    self.entries@[i].batch_id,
                )),
    {
        let n = self.entries.len();
        let mut i: usize = 0;
        while i < n
            invariant
                n == self.entries@.len(),
                i <= n,
                wl_sorted(self.entries@),
                forall|j: int|
                    0 <= j < i ==> key_lt(
                        (#[trigger] self.entries@[j]).address@,
                        self.entries@[j].batch_id,
                        addr@,
                        batch,
                    ),
            decreases n - i,
        {
            let e = &self.entries[i];
            match key_cmp(&e.address, e.batch_id, addr, batch) {
                Cmp::Less => {
                    i = i + 1;
                },
                Cmp::Equal => {
                    return (i, true);
                },
                Cmp::Greater => {
                    assert forall|j: int|
                        i <= j < self.entries@.len() implies key_lt(
                        addr@,
                        batch,
                        (#[trigger] self.entries@[j]).address@,
                        self.entries@[j].batch_id,
                    ) by {
                        if j != i {
                            lemma_key_lt_transitive(
                                addr@,
                                batch,
                                self.entries@[i as int].address@,
                                self.entries@[i as int].batch_id,
                                self.entries@[j].address@,
                                self.entries@[j].batch_id,
                            );
                        }
                    }
                    return (i, false);
                },
            }
        }
        (i, false)
    }

    /// The amount stored under the key, defaulting to zero.
    pub fn get(&self, addr: &Vec<u8>, batch: u64) -> (r: u128)
        requires
            wl_sorted(self.entries@),
        ensures
            r == wl_get(self.entries@, addr@, batch),
    {
        let (i, found) = self.position(addr, batch);
        if found {
            proof {
                lemma_wl_get_at(self.entries@, i as int);
            }
            self.entries[i].amount
        } else {
            proof {
                assert forall|j: int|
                    0 <= j < self.entries@.len() implies !((#[trigger] self.entries@[j]).address@
                    == addr@ && self.entries@[j].batch_id == batch) by {
                    if self.entries@[j].address@ == addr@ && self.entries@[j].batch_id == batch {
                        lemma_key_lt_irreflexive(addr@, batch);
                    }
                }
                lemma_wl_get_absent(self.entries@, addr@, batch);
            }
            0
        }
    }

    /// Store `amount` under the key, replacing the entry already there or
    /// inserting a new one at its sorted position.
    pub fn set(&mut self, addr: &Vec<u8>, batch: u64, amount: u128)
        requires
            wl_sorted(old(self).entries@),
        ensures
            wl_sorted(final(self).entries@),
            wl_get(final(self).entries@, addr@, batch) == amount,
            forall|k2: Seq<u8>, b2: u64|
                !(k2 == addr@ && b2 == batch) ==> wl_get(final(self).entries@, k2, b2) == wl_get(
                    old(self).entries@,
                    k2,
                    b2,
                ),
            forall|k2: Seq<u8>, b2: u64|
                !(k2 == addr@ && b2 == batch) ==> wl_contains(final(self).entries@, k2, b2)
                    == wl_contains(old(self).entries@, k2, b2),
            wl_contains(final(self).entries@, addr@, batch),
            forall|j: int|
                0 <= j < final(self).entries@.len() ==> (#[trigger] final(self).entries@[j]).batch_id
                    == batch || wl_contains(
                    old(self).entries@,
                    final(self).entries@[j].address@,
                    final(self).entries@[j].batch_id,
                ),
    {
        let ghost s0 = self.entries@;
        let (i, found) = self.position(addr, batch);
        if found {
            proof {
                lemma_wl_get_at(s0, i as int);
            }
            let old_entry = self.entries.remove(i);
            let v = WaitEntry { address: old_entry.address, batch_id: batch, amount };
            self.entries.insert(i, v);
            proof {
                let t = self.entries@;
                let ghost v_spec = t[i as int];
                assert(t =~= s0.update(i as int, v_spec));
                assert(wl_sorted(t)) by {
                    assert(forall|a: int|
                        0 <= a < t.len() ==> (#[trigger] t[a]).address@ == s0[a].address@
                            && t[a].batch_id == s0[a].batch_id);
                }
                assert forall|k2: Seq<u8>, b2: u64| true implies #[trigger] wl_get(t, k2, b2) == (
                if addr@ == k2 && batch == b2 {
                    amount
                } else {
                    wl_get(s0, k2, b2)
                }) by {
                    lemma_wl_get_of_update(s0, i as int, v_spec, k2, b2);
                }
                assert forall|k2: Seq<u8>, b2: u64| true implies #[trigger] wl_contains(t, k2, b2)
                    == wl_contains(s0, k2, b2) by {
                    lemma_wl_get_of_update(s0, i as int, v_spec, k2, b2);
                }
                lemma_wl_get_at(t, i as int);
                assert forall|j: int|
                    0 <= j < t.len() implies (#[trigger] t[j]).batch_id == batch || wl_contains(
                    s0,
                    t[j].address@,
                    t[j].batch_id,
                ) by {
                    if j != i {
                        assert(t[j] == s0[j]);
                        lemma_wl_get_at(s0, j);
                    }
                }
            }
        } else {
            proof {
                assert forall|j: int|
                    0 <= j < s0.len() implies !((#[trigger] s0[j]).address@ == addr@
                    && s0[j].batch_id == batch) by {
                    if s0[j].address@ == addr@ && s0[j].batch_id == batch {
                        lemma_key_lt_irreflexive(addr@, batch);
                    }
                }
                lemma_wl_get_absent(s0, addr@, batch);
            }
            let kk = crate::holders::clone_bytes(addr);
            let v = WaitEntry { address: kk, batch_id: batch, amount };
            self.entries.insert(i, v);
            proof {
                let t = self.entries@;
                let ghost v_spec = t[i as int];
                assert(t =~= s0.insert(i as int, v_spec));
                assert forall|k2: Seq<u8>, b2: u64| true implies #[trigger] wl_get(t, k2, b2) == (
                if addr@ == k2 && batch == b2 {
                    amount
                } else {
                    wl_get(s0, k2, b2)
                }) by {
                    lemma_wl_get_of_insert(s0, i as int, v_spec, k2, b2);
                }
                assert forall|k2: Seq<u8>, b2: u64|
                    !(k2 == addr@ && b2 == batch) implies #[trigger] wl_contains(t, k2, b2)
                    == wl_contains(s0, k2, b2) by {
                    lemma_wl_get_of_insert(s0, i as int, v_spec, k2, b2);
                }
                lemma_wl_get_of_insert(s0, i as int, v_spec, addr@, batch);
                assert forall|j: int|
                    0 <= j < t.len() implies (#[trigger] t[j]).batch_id == batch || wl_contains(
                    s0,
                    t[j].address@,
                    t[j].batch_id,
                ) by {
                    s0.insert_ensures(i as int, v_spec);
                    if j < i {
                        assert(t[j] == s0[j]);
                        lemma_wl_get_at(s0, j);
                    } else if j > i {
                        assert(t[j] == s0[j - 1]);
                        lemma_wl_get_at(s0, j - 1);
                    }
                }
            }
        }
    }
}

} // verus!
