//! Flattening of transactions into the element lists of an accumulator update.
use vstd::prelude::*;
use crate::state::Transaction;
use crate::state::Utxo;
use crate::state::without_witnesses;
use crate::state::witnesses_cloned;

verus! {

/// The outputs created by `txs`: transaction by transaction, and within one
/// transaction in the order it lists them.
pub open spec fn elems_added<W>(txs: Seq<Transaction<W>>) -> Seq<Utxo> {
    txs.flat_map(|t: Transaction<W>| t.created())
}

/// The outputs spent by `txs` with their witnesses, in the same order.
pub open spec fn elems_deleted_with_witnesses<W>(txs: Seq<Transaction<W>>) -> Seq<(Utxo, W)> {
    txs.flat_map(|t: Transaction<W>| t.spent_with_witnesses())
}

/// The outputs spent by `txs`, in the same order.
pub open spec fn elems_deleted<W>(txs: Seq<Transaction<W>>) -> Seq<Utxo> {
    txs.flat_map(|t: Transaction<W>| t.spent())
}

/// The outputs created by `transactions`, in order.
pub fn created_elems<W>(transactions: &[Transaction<W>]) -> (elems: Vec<Utxo>)
    ensures
        elems@ == elems_added(transactions@),
{
    let mut elems: Vec<Utxo> = Vec::new();
    let mut i: usize = 0;
    while i < transactions.len()
        invariant
            i <= transactions.len(),
            elems@ == elems_added(transactions@.take(i as int)),
        decreases transactions.len() - i,
    {
        let tx = &transactions[i];
        let ghost before = elems@;
        let mut j: usize = 0;
        while j < tx.utxos_created.len()
            invariant
                j <= tx.utxos_created.len(),
                elems@ == before + tx.created().take(j as int),
            decreases tx.utxos_created.len() - j,
        {
            elems.push(tx.utxos_created[j]);
            j += 1;
        }
        proof {
            assert(tx.created().take(j as int) == tx.created());
            transactions@.lemma_flat_map_take_append(|t: Transaction<W>| t.created(), i as int);
        }
        i += 1;
    }
    assert(transactions@.take(i as int) == transactions@);
    elems
}

/// The first components of `pairs`, in order.
pub fn outputs_of<W>(pairs: &[(Utxo, W)]) -> (outputs: Vec<Utxo>)
    ensures
        outputs@ == without_witnesses(pairs@),
{
    let mut outputs: Vec<Utxo> = Vec::new();
    let mut k: usize = 0;
    while k < pairs.len()
        invariant
            k <= pairs.len(),
            outputs@ == without_witnesses(pairs@.take(k as int)),
        decreases pairs.len() - k,
    {
        outputs.push(pairs[k].0);
        assert(without_witnesses(pairs@.take(k + 1)) == without_witnesses(
            pairs@.take(k as int),
        ).push(pairs@[k as int].0));
        k += 1;
    }
    assert(pairs@.take(k as int) == pairs@);
    outputs
}

/// The outputs spent by `transactions`, in order.
pub fn spent_elems<W>(transactions: &[Transaction<W>]) -> (elems: Vec<Utxo>)
    ensures
        elems@ == elems_deleted(transactions@),
{
    let mut elems: Vec<Utxo> = Vec::new();
    let mut i: usize = 0;
    while i < transactions.len()
        invariant
            i <= transactions.len(),
            elems@ == elems_deleted(transactions@.take(i as int)),
        decreases transactions.len() - i,
    {
        let tx = &transactions[i];
        let ghost before = elems@;
        let mut j: usize = 0;
        while j < tx.utxos_spent_with_witnesses.len()
            invariant
                j <= tx.utxos_spent_with_witnesses.len(),
                elems@ == before + tx.spent().take(j as int),
            decreases tx.utxos_spent_with_witnesses.len() - j,
        {
            elems.push(tx.utxos_spent_with_witnesses[j].0);
            assert(tx.spent().take(j + 1) == tx.spent().take(j as int).push(tx.spent()[j as int]));
            j += 1;
        }
        proof {
            assert(tx.spent().take(j as int) == tx.spent());
            transactions@.lemma_flat_map_take_append(|t: Transaction<W>| t.spent(), i as int);
        }
        i += 1;
    }
    assert(transactions@.take(i as int) == transactions@);
    elems
}

/// Extracts the elements added and deleted by `transactions`: the created
/// outputs, and the spent outputs each with a clone of its witness. Both lists
/// keep the order of the transactions and, within one transaction, the order
/// of its outputs.
pub fn elems_from_transactions<W: Clone>(transactions: &[Transaction<W>]) -> (elems: (
    Vec<Utxo>,
    Vec<(Utxo, W)>,
))
    ensures
        elems.0@ == elems_added(transactions@),
        witnesses_cloned(elems_deleted_with_witnesses(transactions@), elems.1@),
{
    let added = created_elems(transactions);
    let mut deleted: Vec<(Utxo, W)> = Vec::new();
    let mut i: usize = 0;
    while i < transactions.len()
        invariant
            i <= transactions.len(),
            witnesses_cloned(elems_deleted_with_witnesses(transactions@.take(i as int)), deleted@),
        decreases transactions.len() - i,
    {
        let tx = &transactions[i];
        let ghost deleted_before = deleted@;
        let mut k: usize = 0;
        while k < tx.utxos_spent_with_witnesses.len()
            invariant
                k <= tx.utxos_spent_with_witnesses.len(),
                deleted@.len() == deleted_before.len() + k,
                forall|n: int| 0 <= n < deleted_before.len() ==> deleted@[n] == deleted_before[n],
                forall|n: int|
                    0 <= n < k ==> (#[trigger] deleted@[deleted_before.len() + n]).0
                        == tx.spent_with_witnesses()[n].0 && cloned(
                        tx.spent_with_witnesses()[n].1,
                        deleted@[deleted_before.len() + n].1,
                    ),
            decreases tx.utxos_spent_with_witnesses.len() - k,
        {
            let utxo = tx.utxos_spent_with_witnesses[k].0;
            let witness = tx.utxos_spent_with_witnesses[k].1.clone();
            deleted.push((utxo, witness));
            k += 1;
        }
        proof {
            let prefix = transactions@.take(i as int);
            let next = transactions@.take(i + 1);
            transactions@.lemma_flat_map_take_append(
                |t: Transaction<W>| t.spent_with_witnesses(),
                i as int,
            );
            assert(elems_deleted_with_witnesses(next) == elems_deleted_with_witnesses(prefix)
                + tx.spent_with_witnesses());
            assert forall|n: int| 0 <= n < elems_deleted_with_witnesses(next).len() implies (
            #[trigger] deleted@[n]).0 == elems_deleted_with_witnesses(next)[n].0 && cloned(
                elems_deleted_with_witnesses(next)[n].1,
                deleted@[n].1,
            ) by {
                let base = elems_deleted_with_witnesses(prefix);
                assert(base.len() == deleted_before.len());
                if n < deleted_before.len() {
                    assert(deleted_before[n].0 == base[n].0);
                    assert(elems_deleted_with_witnesses(next)[n] == base[n]);
                } else {
                    let m = n - deleted_before.len();
                    assert(deleted@[deleted_before.len() + m].0 == tx.spent_with_witnesses()[m].0);
                    assert(elems_deleted_with_witnesses(next)[n] == tx.spent_with_witnesses()[m]);
                }
            }
        }
        i += 1;
    }
    assert(transactions@.take(i as int) == transactions@);
    (added, deleted)
}

} // verus!
