use vstd::prelude::*;
use vstd::seq_lib::group_to_multiset_ensures;
use crate::library::Library;
use crate::probe::{probe_seq, ValIterator};

verus! {

/// The weights met along `probes`: for each probed value in order that is a
/// key of `table`, its weight. A value probed twice counts twice.
pub open spec fn matched(probes: Seq<u8>, table: Map<u8, u32>) -> Seq<u32>
    decreases probes.len(),
{
    if probes.len() == 0 {
        Seq::empty()
    } else {
        let prev = matched(probes.drop_last(), table);
        let b = probes.last();
        if table.contains_key(b) {
            prev.push(table[b])
        } else {
            prev
        }
    }
}

/// The weights that contribute to the score of `candidate`: the table's weight
/// for every value probed around its elements with the given window, in the
/// order in which they are probed. The score is their sum.
pub fn matched_weights(candidate: &Vec<u8>, library: &Library, window: usize) -> (r: Vec<u32>)
    requires
        window < usize::MAX,
    ensures
        r@ == matched(probe_seq(candidate@, window as nat), library@),
{
    let mut it = ValIterator::new(candidate, window);
    let mut out: Vec<u32> = Vec::new();
    loop
        invariant
            it.wf(),
            it.source() == candidate@,
            it.window() == window,
            it.produced() <= it.probes().len(),
            out@ == matched(it.probes().take(it.produced() as int), library@),
        decreases it.probes().len() - it.produced(),
    {
        let ghost before = it.produced() as int;
        match it.next() {
            Some(b) => {
                proof {
                    assert(it.probes().take(before + 1).drop_last() =~= it.probes().take(before));
                }
                match library.get(b) {
                    Some(w) => out.push(w),
                    None => {},
                }
            },
            None => {
                proof {
                    assert(it.probes().take(before) =~= it.probes());
                }
                return out;
            },
        }
    }
}

/// The contributing weights of each candidate, in the order given.
pub open spec fn matched_all(candidates: Seq<Seq<u8>>, table: Map<u8, u32>, window: nat) -> Seq<
    Seq<u32>,
> {
    candidates.map_values(|c: Seq<u8>| matched(probe_seq(c, window), table))
}

/// Scoring the same candidates in any order, against the same table, gives
/// the same multiset of results: only their order can differ.
pub proof fn lemma_order_independent(
    cs: Seq<Seq<u8>>,
    ds: Seq<Seq<u8>>,
    table: Map<u8, u32>,
    window: nat,
)
    requires
        cs.to_multiset() == ds.to_multiset(),
    ensures
        matched_all(cs, table, window).to_multiset() == matched_all(ds, table, window).to_multiset(),
    decreases cs.len(),
{
    broadcast use group_to_multiset_ensures;

    let f = |c: Seq<u8>| matched(probe_seq(c, window), table);
    cs.to_multiset_ensures();
    ds.to_multiset_ensures();
    assert(cs.len() == ds.len());
    if cs.len() == 0 {
        assert(matched_all(cs, table, window) =~= Seq::empty());
        assert(matched_all(ds, table, window) =~= Seq::empty());
    } else {
        let x = cs.last();
        let rest = cs.drop_last();
        assert(rest.push(x) =~= cs);
        assert(ds.to_multiset().count(x) > 0);
        let j = choose|j: int| 0 <= j < ds.len() && ds[j] == x;
        let others = ds.remove(j);
        assert(rest.to_multiset() =~= ds.to_multiset().remove(x));
        assert(others.to_multiset() =~= ds.to_multiset().remove(x));
        lemma_order_independent(rest, others, table, window);
        let mc = matched_all(cs, table, window);
        let md = matched_all(ds, table, window);
        assert(matched_all(rest, table, window).push(f(x)) =~= mc);
        assert(matched_all(others, table, window) =~= md.remove(j));
        assert(md[j] == f(x));
        assert(md.remove(j).to_multiset() =~= md.to_multiset().remove(f(x)));
        assert(md.to_multiset().count(f(x)) > 0);
        assert(md.to_multiset().remove(f(x)).insert(f(x)) =~= md.to_multiset());
    }
}

} // verus!
