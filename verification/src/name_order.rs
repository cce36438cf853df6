//! The order of file names: byte by byte, a proper prefix before what it begins.

use vstd::prelude::*;

verus! {

/// Whether `a` and `b` hold the same bytes in their first `k` positions.
pub open spec fn same_prefix(a: Seq<u8>, b: Seq<u8>, k: int) -> bool {
    &&& 0 <= k <= a.len()
    &&& k <= b.len()
    &&& forall|i: int| 0 <= i < k ==> a[i] == b[i]
}

/// Whether the name `a` comes before the name `b`: at the first position where they
/// differ `a` has the smaller byte, or `a` ends there and `b` does not.
pub open spec fn name_lt(a: Seq<u8>, b: Seq<u8>) -> bool {
    exists|k: int|
        #[trigger] same_prefix(a, b, k) && (if k == a.len() {
            k < b.len()
        } else {
            k < b.len() && a[k] < b[k]
        })
}

/// Whether the names of `names` stand in strictly ascending order.
pub open spec fn names_sorted(names: Seq<Seq<u8>>) -> bool {
    forall|i: int, j: int| 0 <= i < j < names.len() ==> name_lt(#[trigger] names[i], #[trigger] names[j])
}

/// Two prefixes that both end at the first difference end at the same place.
proof fn lemma_prefix_end_unique(a: Seq<u8>, b: Seq<u8>, k1: int, k2: int)
    requires
        same_prefix(a, b, k1),
        same_prefix(a, b, k2),
        k1 < k2,
    ensures
        k1 < a.len() && k1 < b.len() && a[k1] == b[k1],
{
}

/// No name comes before itself.
pub proof fn lemma_name_lt_irreflexive(a: Seq<u8>)
    ensures
        !name_lt(a, a),
{
    if name_lt(a, a) {
        let k = choose|k: int|
            #[trigger] same_prefix(a, a, k) && (if k == a.len() {
                k < a.len()
            } else {
                k < a.len() && a[k] < a[k]
            });
        assert(false);
    }
}

/// Of two names at most one comes before the other.
pub proof fn lemma_name_lt_asymmetric(a: Seq<u8>, b: Seq<u8>)
    requires
        name_lt(a, b),
    ensures
        !name_lt(b, a),
{
    if name_lt(b, a) {
        let k1 = choose|k: int|
            #[trigger] same_prefix(a, b, k) && (if k == a.len() {
                k < b.len()
            } else {
                k < b.len() && a[k] < b[k]
            });
        let k2 = choose|k: int|
            #[trigger] same_prefix(b, a, k) && (if k == b.len() {
                k < a.len()
            } else {
                k < a.len() && b[k] < a[k]
            });
        assert(same_prefix(a, b, k2));
        if k1 < k2 {
            lemma_prefix_end_unique(a, b, k1, k2);
        } else if k2 < k1 {
            lemma_prefix_end_unique(a, b, k2, k1);
        }
    }
}

/// In a sorted sequence no name stands twice.
pub proof fn lemma_sorted_names_distinct(names: Seq<Seq<u8>>, i: int, j: int)
    requires
        names_sorted(names),
        0 <= i < names.len(),
        0 <= j < names.len(),
        i != j,
    ensures
        names[i] != names[j],
{
    if i < j {
        assert(name_lt(names[i], names[j]));
        lemma_name_lt_irreflexive(names[i]);
    } else {
        assert(name_lt(names[j], names[i]));
        lemma_name_lt_irreflexive(names[j]);
    }
}

/// How two names stand to each other.
#[derive(Clone, Copy, Debug, PartialEq, Eq, Structural)]
pub enum NameOrder {
    Before,
    Same,
    After,
}

/// Tells how the name `a` stands to the name `b`.
pub fn compare_names(a: &[u8], b: &[u8]) -> (r: NameOrder)
    ensures
        r == NameOrder::Before <==> name_lt(a@, b@),
        r == NameOrder::Same <==> a@ == b@,
        r == NameOrder::After <==> name_lt(b@, a@),
{
    let la = a.len();
    let lb = b.len();
    let mut k: usize = 0;
    while k < la && k < lb
        invariant
            la == a@.len(),
            lb == b@.len(),
            same_prefix(a@, b@, k as int),
        decreases la - k,
    {
        if a[k] < b[k] {
            proof {
                lemma_name_lt_asymmetric(a@, b@);
                lemma_name_lt_irreflexive(a@);
            }
            return NameOrder::Before;
        }
        if a[k] > b[k] {
            proof {
                assert(same_prefix(b@, a@, k as int));
                lemma_name_lt_asymmetric(b@, a@);
                lemma_name_lt_irreflexive(a@);
            }
            return NameOrder::After;
        }
        k = k + 1;
    }
    if la < lb {
        proof {
            lemma_name_lt_asymmetric(a@, b@);
            lemma_name_lt_irreflexive(a@);
        }
        NameOrder::Before
    } else if lb < la {
        proof {
            assert(same_prefix(b@, a@, k as int));
            lemma_name_lt_asymmetric(b@, a@);
            lemma_name_lt_irreflexive(a@);
        }
        NameOrder::After
    } else {
        proof {
            assert(a@ =~= b@);
            lemma_name_lt_irreflexive(a@);
        }
        NameOrder::Same
    }
}

} // verus!
