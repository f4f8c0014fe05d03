//! Keys listed in increasing order.
use vstd::prelude::*;
use vstd::std_specs::cmp::OrdSpec;

verus! {

/// In a list of `u64` keys that a `BTreeMap` gives in increasing order, an
/// earlier key is smaller.
pub proof fn lemma_increasing_keys(keys: Seq<u64>, a: int, b: int)
    requires
        vstd::std_specs::btree::increasing_seq(keys),
        0 <= a < b < keys.len(),
    ensures
        keys[a] < keys[b],
{
    broadcast use vstd::laws_cmp::group_laws_cmp;
    assert(vstd::laws_cmp::obeys_cmp::<u64>());
    vstd::std_specs::btree::axiom_increasing_seq_meaning(keys);
    assert(keys[a].cmp_spec(&keys[b]) is Less);
}

} // verus!
