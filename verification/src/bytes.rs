//! Lexicographic ordering of byte strings.
//!
//! Addresses are carried as byte strings; the holder map and the unbond
//! wait list keep their entries in strictly ascending lexicographic key
//! order, and paginated queries walk that order. This module defines the
//! order as a spec relation, proves that it is a strict total order, and
//! gives an executable three-way comparison against it.

use vstd::prelude::*;

verus! {

/// Strict lexicographic order: a comes before b.
pub open spec fn lex_lt(a: Seq<u8>, b: Seq<u8>) -> bool
    decreases a.len(),
{
    if b.len() == 0 {
        false
    } else if a.len() == 0 {
        true
    } else if a[0] < b[0] {
        true
    } else if a[0] > b[0] {
        false
    } else {
        lex_lt(a.drop_first(), b.drop_first())
    }
}

/// No byte string comes before itself.
pub proof fn lemma_lex_irreflexive(a: Seq<u8>)
    ensures
        !lex_lt(a, a),
    decreases a.len(),
{
    if a.len() > 0 {
        lemma_lex_irreflexive(a.drop_first());
    }
}

/// The order is transitive.
pub proof fn lemma_lex_transitive(a: Seq<u8>, b: Seq<u8>, c: Seq<u8>)
    requires
        lex_lt(a, b),
        lex_lt(b, c),
    ensures
        lex_lt(a, c),
    decreases a.len(),
{
    if a.len() > 0 && b.len() > 0 && c.len() > 0 && a[0] == b[0] && b[0] == c[0] {
        lemma_lex_transitive(a.drop_first(), b.drop_first(), c.drop_first());
    }
}

/// Strict order implies inequality.
pub proof fn lemma_lex_lt_neq(a: Seq<u8>, b: Seq<u8>)
    requires
        lex_lt(a, b),
    ensures
        a != b,
{
    if a == b {
        lemma_lex_irreflexive(a);
    }
}

/// Dropping a common prefix of length i does not change how two byte
/// strings compare.
proof fn lemma_lex_skip_common_prefix(a: Seq<u8>, b: Seq<u8>, i: int)
    requires
        0 <= i <= a.len(),
        i <= b.len(),
        forall|j: int| 0 <= j < i ==> a[j] == b[j],
    ensures
        lex_lt(a, b) == lex_lt(a.skip(i), b.skip(i)),
    decreases i,
{
    if i > 0 {
        lemma_lex_skip_common_prefix(a.drop_first(), b.drop_first(), i - 1);
        assert(a.drop_first().skip(i - 1) =~= a.skip(i));
        assert(b.drop_first().skip(i - 1) =~= b.skip(i));
    } else {
        assert(a.skip(0) =~= a);
        assert(b.skip(0) =~= b);
    }
}

/// Result of a three-way comparison.
#[derive(Clone, Copy, PartialEq, Eq, Structural, Debug)]
pub enum Cmp {
    Less,
    Equal,
    Greater,
}

/// Three-way lexicographic comparison of two byte strings.
pub fn lex_cmp(a: &Vec<u8>, b: &Vec<u8>) -> (r: Cmp)
    ensures
        (r is Less) == lex_lt(a@, b@),
        (r is Greater) == lex_lt(b@, a@),
        (r is Equal) == (a@ == b@),
{
    let mut i: usize = 0;
    loop
        invariant
            i <= a@.len(),
            i <= b@.len(),
            forall|j: int| 0 <= j < i ==> a@[j] == b@[j],
        decreases a@.len() - i,
    {
        if i < a.len() && i < b.len() {
            let x = a[i];
            let y = b[i];
            if x < y {
                proof {
                    lemma_lex_skip_common_prefix(a@, b@, i as int);
                    lemma_lex_skip_common_prefix(b@, a@, i as int);
                    lemma_lex_lt_neq(a@, b@);
                }
                return Cmp::Less;
            } else if x > y {
                proof {
                    lemma_lex_skip_common_prefix(a@, b@, i as int);
                    lemma_lex_skip_common_prefix(b@, a@, i as int);
                    lemma_lex_lt_neq(b@, a@);
                }
                return Cmp::Greater;
            }
            i = i + 1;
        } else {
            proof {
                lemma_lex_skip_common_prefix(a@, b@, i as int);
                lemma_lex_skip_common_prefix(b@, a@, i as int);
            }
            if i < b.len() {
                proof {
                    lemma_lex_lt_neq(a@, b@);
                }
                return Cmp::Less;
            } else if i < a.len() {
                proof {
                    lemma_lex_lt_neq(b@, a@);
                }
                return Cmp::Greater;
            } else {
                proof {
                    assert(a@ =~= b@);
                }
                return Cmp::Equal;
            }
        }
    }
}

} // verus!
