//! The decisions of the compilation orchestrator.
//!
//! The orchestrator walks the stored corpus page by page; within a page it
//! compiles every contract concurrently and fans the per-contract function
//! rows into one page-scoped collection, which is persisted only after the
//! whole page has finished.  The driving loop performs the outside work —
//! compiling, waiting, persisting; the decisions it runs on are here: which
//! contracts are compiled at all, and how per-contract results fan in.
//! Concurrency can deliver the per-contract batches in any order; the
//! fan-in lemma shows the collected rows are the same set regardless.
use vstd::prelude::*;

use crate::functions::{ContractFunction, ContractFunctionView};
use crate::source::{ContractSourceView, PlainContract};

verus! {

/// Only primary-language contracts are compiled: a contract whose source
/// is the alternate language is skipped outright, before the toolchain is
/// invoked.
pub fn should_compile(c: &PlainContract) -> (r: bool)
    ensures
        r == !(c@.source matches ContractSourceView::Vyper(_)),
{
    match &c.source {
        crate::source::ContractSource::Vyper(_) => false,
        _ => true,
    }
}

/// Fans the per-contract result batches of one page into the page's
/// collection: every row of every batch, batches in the order delivered.
pub fn collect_page(results: &Vec<Vec<ContractFunction>>) -> (r: Vec<ContractFunction>)
    ensures
        r.deep_view() == results.deep_view().flatten(),
{
    let mut r: Vec<ContractFunction> = Vec::new();
    let mut i: usize = 0;
    proof {
        assert(r.deep_view() =~= results.deep_view().take(0int).flatten());
    }
    while i < results.len()
        invariant
            i <= results@.len(),
            r.deep_view() == results.deep_view().take(i as int).flatten(),
        decreases results@.len() - i,
    {
        let batch = &results[i];
        let ghost before = r.deep_view();
        let mut j: usize = 0;
        proof {
            assert(batch.deep_view().take(0int) =~= Seq::<ContractFunctionView>::empty());
            assert(r.deep_view() =~= before + batch.deep_view().take(0int));
        }
        while j < batch.len()
            invariant
                j <= batch@.len(),
                batch.deep_view() == results.deep_view()[i as int],
                i < results@.len(),
                r.deep_view() == before + batch.deep_view().take(j as int),
            decreases batch@.len() - j,
        {
            r.push(batch[j].duplicate());
            proof {
                assert(r.deep_view() =~= (before + batch.deep_view().take(j as int)).push(
                    batch.deep_view()[j as int],
                ));
                assert(batch.deep_view().take(j + 1) =~= batch.deep_view().take(j as int).push(
                    batch.deep_view()[j as int],
                ));
                assert(r.deep_view() =~= before + batch.deep_view().take(j + 1));
            }
            j = j + 1;
        }
        proof {
            assert(batch.deep_view().take(batch@.len() as int) =~= batch.deep_view());
            let prefix = results.deep_view().take(i as int);
            prefix.lemma_flatten_push(results.deep_view()[i as int]);
            assert(results.deep_view().take(i + 1) =~= prefix.push(results.deep_view()[i as int]));
            assert(r.deep_view() =~= results.deep_view().take(i + 1).flatten());
        }
        i = i + 1;
    }
    proof {
        assert(results.deep_view().take(results@.len() as int) =~= results.deep_view());
    }
    r
}

/// The rows of a batch list, counted with multiplicity: what fan-in
/// collects, ignoring order.
pub open spec fn spec_collected_rows<A>(batches: Seq<Seq<A>>) -> vstd::multiset::Multiset<A> {
    batches.flatten().to_multiset()
}

/// Removing one batch splits the flattened multiset.
proof fn lemma_flatten_remove_multiset<A>(batches: Seq<Seq<A>>, i: int)
    requires
        0 <= i < batches.len(),
    ensures
        batches.flatten().to_multiset() == batches[i].to_multiset().add(
            batches.remove(i).flatten().to_multiset(),
        ),
    decreases batches.len(),
{
    broadcast use vstd::multiset::group_multiset_axioms;

    if i == 0 {
        assert(batches.flatten() == batches[0] + batches.drop_first().flatten());
        vstd::seq_lib::lemma_multiset_commutative(batches[0], batches.drop_first().flatten());
        assert(batches.remove(0) =~~= batches.drop_first());
    } else {
        let tail = batches.drop_first();
        assert(batches.flatten() == batches[0] + tail.flatten());
        vstd::seq_lib::lemma_multiset_commutative(batches[0], tail.flatten());
        lemma_flatten_remove_multiset(tail, i - 1);
        assert(batches.remove(i).drop_first() =~~= tail.remove(i - 1));
        assert(batches.remove(i)[0] == batches[0]);
        assert(batches.remove(i).flatten() == batches[0] + tail.remove(i - 1).flatten());
        vstd::seq_lib::lemma_multiset_commutative(batches[0], tail.remove(i - 1).flatten());
        assert(batches.flatten().to_multiset() =~= batches[i].to_multiset().add(
            batches.remove(i).flatten().to_multiset(),
        ));
    }
}

/// Fan-in correctness: however concurrency interleaves the delivery of the
/// per-contract batches of a page — one at a time or all at once, in any
/// order — the collected rows are the same, counted with multiplicity.
pub proof fn lemma_fan_in_order_invariant<A>(b1: Seq<Seq<A>>, b2: Seq<Seq<A>>)
    requires
        b1.to_multiset() == b2.to_multiset(),
    ensures
        spec_collected_rows(b1) == spec_collected_rows(b2),
    decreases b1.len(),
{
    broadcast use vstd::seq_lib::group_to_multiset_ensures;
    broadcast use vstd::multiset::group_multiset_axioms;

    if b1.len() == 0 {
        assert(b2.to_multiset().len() == 0);
        assert(b2.len() == 0);
        assert(b1 =~~= b2);
    } else {
        let x = b1[0];
        assert(b1.contains(x));
        assert(b2.to_multiset().count(x) > 0);
        assert(b2.contains(x));
        let i = choose|i: int| 0 <= i < b2.len() && b2[i] == x;
        assert(b1.remove(0).to_multiset() == b1.to_multiset().remove(x));
        assert(b2.remove(i).to_multiset() == b2.to_multiset().remove(x));
        lemma_fan_in_order_invariant(b1.remove(0), b2.remove(i));
        lemma_flatten_remove_multiset(b1, 0);
        lemma_flatten_remove_multiset(b2, i);
        assert(spec_collected_rows(b1) =~= spec_collected_rows(b2));
    }
}

} // verus!
