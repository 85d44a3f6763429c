//! The ledger that the accumulator commits to, as a set of unspent outputs,
//! and the laws that tie the participants' books to it.
use vstd::prelude::*;
use crate::bridge::utxo_set_after;
use crate::bridge::utxo_set_after_transaction;
use crate::select::lemma_filter_contains;
use crate::select::not_among;
use crate::select::owned_by;
use crate::select::tracked_by;
use crate::state::Transaction;
use crate::state::Utxo;
use crate::user::lemma_with_added_contains;
use crate::user::utxo_set_after_update;
use crate::util::elems_added;
use crate::util::elems_deleted;

verus! {

/// The unspent outputs after one transaction: its spent outputs leave the
/// ledger, then its created outputs enter.
pub open spec fn ledger_after_transaction(
    ledger: Set<Utxo>,
    created: Seq<Utxo>,
    spent: Seq<Utxo>,
) -> Set<Utxo> {
    ledger.difference(spent.to_set()).union(created.to_set())
}

/// The unspent outputs after the transactions `txs`, taken in order.
pub open spec fn ledger_after<W>(ledger: Set<Utxo>, txs: Seq<Transaction<W>>) -> Set<Utxo>
    decreases txs.len(),
{
    if txs.len() == 0 {
        ledger
    } else {
        ledger_after_transaction(
            ledger_after(ledger, txs.drop_last()),
            txs.last().created(),
            txs.last().spent(),
        )
    }
}

/// An output is in a concatenation exactly if it is in one of the parts.
proof fn lemma_concat_contains(a: Seq<Utxo>, b: Seq<Utxo>, u: Utxo)
    ensures
        (a + b).contains(u) <==> a.contains(u) || b.contains(u),
{
    if a.contains(u) {
        let i = choose|i: int| 0 <= i < a.len() && a[i] == u;
        assert((a + b)[i] == u);
    }
    if b.contains(u) {
        let i = choose|i: int| 0 <= i < b.len() && b[i] == u;
        assert((a + b)[a.len() + i] == u);
    }
    if (a + b).contains(u) {
        let i = choose|i: int| 0 <= i < (a + b).len() && (a + b)[i] == u;
        if i < a.len() {
            assert(a[i] == u);
        } else {
            assert(b[i - a.len()] == u);
        }
    }
}

/// The created outputs of a block are those of all its transactions but the
/// last, and those of the last; the same holds of the spent outputs.
proof fn lemma_elems_unfold<W>(txs: Seq<Transaction<W>>)
    requires
        txs.len() > 0,
    ensures
        elems_added(txs) == elems_added(txs.drop_last()) + txs.last().created(),
        elems_deleted(txs) == elems_deleted(txs.drop_last()) + txs.last().spent(),
{
    assert(txs.drop_last().push(txs.last()) == txs);
    txs.drop_last().lemma_flat_map_push(|t: Transaction<W>| t.created(), txs.last());
    txs.drop_last().lemma_flat_map_push(|t: Transaction<W>| t.spent(), txs.last());
}

/// A bridge's book follows the ledger. If a bridge holds exactly the unspent
/// outputs of its users, then after the transactions of a block, applied to
/// its book and to the ledger alike, it still holds exactly the unspent
/// outputs of its users.
pub proof fn lemma_bridge_tracks_ledger<W>(
    ledger: Set<Utxo>,
    utxo_set: Seq<Utxo>,
    user_ids: Seq<usize>,
    txs: Seq<Transaction<W>>,
)
    requires
        utxo_set.to_set() == ledger.filter(tracked_by(user_ids)),
    ensures
        utxo_set_after(utxo_set, user_ids, txs).to_set() == ledger_after(ledger, txs).filter(
            tracked_by(user_ids),
        ),
    decreases txs.len(),
{
    if txs.len() > 0 {
        let before = utxo_set_after(utxo_set, user_ids, txs.drop_last());
        let ledger_before = ledger_after(ledger, txs.drop_last());
        lemma_bridge_tracks_ledger(ledger, utxo_set, user_ids, txs.drop_last());
        let created = txs.last().created();
        let spent = txs.last().spent();
        let after = utxo_set_after_transaction(before, user_ids, created, spent);
        let ledger_next = ledger_after_transaction(ledger_before, created, spent);
        let ours = tracked_by(user_ids);
        assert forall|u: Utxo| after.to_set().contains(u) <==> ledger_next.filter(ours).contains(
            u,
        ) by {
            lemma_concat_contains(
                before.filter(not_among(spent.filter(ours))),
                created.filter(ours),
                u,
            );
            lemma_filter_contains(before, not_among(spent.filter(ours)), u);
            lemma_filter_contains(created, ours, u);
            lemma_filter_contains(spent, ours, u);
            assert(before.to_set().contains(u) <==> ledger_before.contains(u) && ours(u));
        }
        assert(after.to_set() =~= ledger_next.filter(ours));
    }
}

/// An unspent output that no transaction of the block spends stays unspent.
proof fn lemma_unspent_stays<W>(ledger: Set<Utxo>, txs: Seq<Transaction<W>>, u: Utxo)
    requires
        ledger.contains(u),
        !elems_deleted(txs).contains(u),
    ensures
        ledger_after(ledger, txs).contains(u),
    decreases txs.len(),
{
    if txs.len() > 0 {
        lemma_elems_unfold(txs);
        lemma_concat_contains(elems_deleted(txs.drop_last()), txs.last().spent(), u);
        lemma_unspent_stays(ledger, txs.drop_last(), u);
    }
}

/// An output that is unspent after a block was created by the block, or was
/// unspent before and is spent by none of its transactions.
proof fn lemma_unspent_origin<W>(ledger: Set<Utxo>, txs: Seq<Transaction<W>>, u: Utxo)
    requires
        ledger_after(ledger, txs).contains(u),
    ensures
        elems_added(txs).contains(u) || (ledger.contains(u) && !elems_deleted(txs).contains(u)),
    decreases txs.len(),
{
    if txs.len() > 0 {
        lemma_elems_unfold(txs);
        lemma_concat_contains(elems_deleted(txs.drop_last()), txs.last().spent(), u);
        lemma_concat_contains(elems_added(txs.drop_last()), txs.last().created(), u);
        if !txs.last().created().contains(u) {
            lemma_unspent_origin(ledger, txs.drop_last(), u);
        }
    } else {
        assert(elems_deleted(txs) =~= Seq::<Utxo>::empty());
    }
}

/// A user's book follows the ledger. If a user owns exactly the unspent
/// outputs that carry its identifier, then after the transactions of a block
/// and the update that they mean for the user, it still does.
///
/// The user deletes first and adds afterwards, whatever the order in the
/// block. So the law holds exactly of the blocks that leave every output
/// which they create for this user unspent, and it is stated of those.
pub proof fn lemma_user_tracks_ledger<W>(
    ledger: Set<Utxo>,
    utxo_set: Seq<Utxo>,
    user_id: usize,
    txs: Seq<Transaction<W>>,
)
    requires
        utxo_set.to_set() == ledger.filter(owned_by(user_id)),
        forall|u: Utxo|
            u.user_id == user_id && #[trigger] elems_added(txs).contains(u) ==> ledger_after(
                ledger,
                txs,
            ).contains(u),
    ensures
        utxo_set_after_update(
            utxo_set,
            elems_added(txs).filter(owned_by(user_id)),
            elems_deleted(txs).filter(owned_by(user_id)),
        ).to_set() == ledger_after(ledger, txs).filter(owned_by(user_id)),
{
    let mine = owned_by(user_id);
    let added = elems_added(txs).filter(mine);
    let deleted = elems_deleted(txs).filter(mine);
    let after = utxo_set_after_update(utxo_set, added, deleted);
    let ledger_next = ledger_after(ledger, txs);
    assert forall|u: Utxo| after.to_set().contains(u) <==> ledger_next.filter(mine).contains(
        u,
    ) by {
        lemma_with_added_contains(utxo_set.filter(not_among(deleted)), added, u);
        lemma_filter_contains(utxo_set, not_among(deleted), u);
        lemma_filter_contains(elems_added(txs), mine, u);
        lemma_filter_contains(elems_deleted(txs), mine, u);
        assert(utxo_set.to_set().contains(u) <==> ledger.contains(u) && mine(u));
        if mine(u) {
            if ledger.contains(u) && !elems_deleted(txs).contains(u) {
                lemma_unspent_stays(ledger, txs, u);
            }
            if ledger_next.contains(u) {
                lemma_unspent_origin(ledger, txs, u);
            }
        }
    }
    assert(after.to_set() =~= ledger_next.filter(mine));
}

/// The law of `lemma_user_tracks_ledger` fails of every other block: if a
/// block creates an output for the user and leaves it spent, the user's book
/// after the update holds an output that the ledger does not.
pub proof fn lemma_user_diverges<W>(
    utxo_set: Seq<Utxo>,
    ledger: Set<Utxo>,
    user_id: usize,
    txs: Seq<Transaction<W>>,
    u: Utxo,
)
    requires
        u.user_id == user_id,
        elems_added(txs).contains(u),
        !ledger_after(ledger, txs).contains(u),
    ensures
        utxo_set_after_update(
            utxo_set,
            elems_added(txs).filter(owned_by(user_id)),
            elems_deleted(txs).filter(owned_by(user_id)),
        ).to_set() != ledger_after(ledger, txs).filter(owned_by(user_id)),
{
    let mine = owned_by(user_id);
    let added = elems_added(txs).filter(mine);
    let deleted = elems_deleted(txs).filter(mine);
    lemma_filter_contains(elems_added(txs), mine, u);
    lemma_with_added_contains(utxo_set.filter(not_among(deleted)), added, u);
    assert(utxo_set_after_update(utxo_set, added, deleted).to_set().contains(u));
}

} // verus!
