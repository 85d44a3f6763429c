//! The bridge: keeps the unspent outputs of its users and one aggregate
//! membership witness for them, rolls both forward block by block, and
//! answers its users' witness requests.
//!
//! The witness itself is computed outside: the bridge says what the
//! computation is to be given and takes the result back.
use vstd::prelude::*;
use crate::select::contains_utxo;
use crate::select::lemma_filter_contains;
use crate::select::not_among;
use crate::select::owned_by;
use crate::select::position_of;
use crate::select::remove_all;
use crate::select::select_owned;
use crate::select::split_tracked;
use crate::select::tracked_by;
use crate::select::untracked_by;
use crate::state::Block;
use crate::state::Transaction;
use crate::state::Utxo;
use crate::util::created_elems;
use crate::util::elems_added;
use crate::util::elems_deleted;
use crate::util::outputs_of;
use crate::util::spent_elems;

verus! {

/// A request from a user for witnesses of some of its outputs.
#[derive(Clone, Debug, PartialEq, Eq)]
pub struct WitnessRequest {
    pub user_id: usize,
    pub request_id: u128,
    pub utxos: Vec<Utxo>,
}

/// The answer to the witness request with the same `request_id`.
#[derive(Clone, Debug, PartialEq, Eq)]
pub struct WitnessResponse<W> {
    pub request_id: u128,
    pub utxos_with_witnesses: Vec<(Utxo, W)>,
}

/// What one block changed in the outputs of one user.
#[derive(Clone, Debug, PartialEq, Eq)]
pub struct UserUpdate {
    pub utxos_added: Vec<Utxo>,
    pub utxos_deleted: Vec<Utxo>,
}

impl UserUpdate {
    /// Whether the update changes nothing.
    pub fn is_empty(&self) -> (empty: bool)
        ensures
            empty == (self.utxos_added@.len() == 0 && self.utxos_deleted@.len() == 0),
    {
        self.utxos_added.len() == 0 && self.utxos_deleted.len() == 0
    }

    /// This is the update that the transactions `txs` mean for user
    /// `user_id`: the outputs of that user that they create, and those that
    /// they spend, each in the order of the block.
    pub open spec fn is_update_for<W>(self, user_id: usize, txs: Seq<Transaction<W>>) -> bool {
        &&& self.utxos_added@ == elems_added(txs).filter(owned_by(user_id))
        &&& self.utxos_deleted@ == elems_deleted(txs).filter(owned_by(user_id))
    }
}

/// `ids` without repetitions: each identifier where it first occurs.
pub open spec fn distinct(ids: Seq<usize>) -> Seq<usize>
    decreases ids.len(),
{
    if ids.len() == 0 {
        ids
    } else {
        let front = distinct(ids.drop_last());
        if front.contains(ids.last()) {
            front
        } else {
            front.push(ids.last())
        }
    }
}

/// `distinct` repeats nothing and keeps every identifier.
pub proof fn lemma_distinct(ids: Seq<usize>)
    ensures
        distinct(ids).no_duplicates(),
        forall|id: usize| distinct(ids).contains(id) <==> ids.contains(id),
    decreases ids.len(),
{
    if ids.len() > 0 {
        let front = ids.drop_last();
        lemma_distinct(front);
        assert forall|id: usize| distinct(ids).contains(id) <==> ids.contains(id) by {
            if ids.contains(id) {
                let i = choose|i: int| 0 <= i < ids.len() && ids[i] == id;
                if i < front.len() {
                    assert(front[i] == id);
                    assert(front.contains(id));
                    assert(distinct(front).contains(id));
                    let j = choose|j: int| 0 <= j < distinct(front).len() && distinct(front)[j] == id;
                    assert(distinct(ids)[j] == id);
                } else if !distinct(front).contains(id) {
                    assert(distinct(ids).last() == id);
                }
            }
            if distinct(ids).contains(id) {
                let j = choose|j: int| 0 <= j < distinct(ids).len() && distinct(ids)[j] == id;
                if j < distinct(front).len() {
                    assert(distinct(front)[j] == id);
                    assert(front.contains(id));
                    let i = choose|i: int| 0 <= i < front.len() && front[i] == id;
                    assert(ids[i] == id);
                } else {
                    assert(ids[ids.len() - 1] == id);
                }
            }
        }
    }
}

/// The outputs a bridge holds after one transaction: what it held, less the
/// outputs of its users that the transaction spends, and then the outputs of
/// its users that the transaction creates.
pub open spec fn utxo_set_after_transaction(
    utxo_set: Seq<Utxo>,
    user_ids: Seq<usize>,
    created: Seq<Utxo>,
    spent: Seq<Utxo>,
) -> Seq<Utxo> {
    utxo_set.filter(not_among(spent.filter(tracked_by(user_ids)))) + created.filter(
        tracked_by(user_ids),
    )
}

/// The outputs a bridge holds after the transactions `txs`, taken in order.
pub open spec fn utxo_set_after<W>(
    utxo_set: Seq<Utxo>,
    user_ids: Seq<usize>,
    txs: Seq<Transaction<W>>,
) -> Seq<Utxo>
    decreases txs.len(),
{
    if txs.len() == 0 {
        utxo_set
    } else {
        utxo_set_after_transaction(
            utxo_set_after(utxo_set, user_ids, txs.drop_last()),
            user_ids,
            txs.last().created(),
            txs.last().spent(),
        )
    }
}

/// A bridge node: the unspent outputs of its users, the aggregate witness for
/// them, and the height of the last block applied.
#[derive(Debug)]
pub struct Bridge<W> {
    bridge_id: usize,
    utxo_set: Vec<Utxo>,
    utxo_set_witness: W,
    block_height: u64,
    user_ids: Vec<usize>,
}

/// The state of a bridge as contracts see it.
pub ghost struct BridgeView<W> {
    pub bridge_id: usize,
    pub utxo_set: Seq<Utxo>,
    pub utxo_set_witness: W,
    pub block_height: u64,
    pub user_ids: Seq<usize>,
}

impl<W> View for Bridge<W> {
    type V = BridgeView<W>;

    closed spec fn view(&self) -> BridgeView<W> {
        BridgeView {
            bridge_id: self.bridge_id,
            utxo_set: self.utxo_set@,
            utxo_set_witness: self.utxo_set_witness,
            block_height: self.block_height,
            user_ids: self.user_ids@,
        }
    }
}

/// What a block asks of a bridge: the state to move to, and what the witness
/// update outside is to be given.
#[derive(Clone, Debug, PartialEq, Eq)]
pub struct BridgeUpdate {
    /// The height of the block.
    pub height: u64,
    /// The outputs of the bridge's users after the block.
    pub utxo_set: Vec<Utxo>,
    /// The outputs of other users that the block creates.
    pub untracked_additions: Vec<Utxo>,
    /// The outputs of other users that the block spends.
    pub untracked_deletions: Vec<Utxo>,
    /// One update for each user of the bridge, with the user's identifier.
    pub user_updates: Vec<(usize, UserUpdate)>,
}

impl BridgeUpdate {
    /// This is what the transactions `txs` ask of a bridge that holds
    /// `utxo_set` for the users `user_ids`.
    pub open spec fn follows<W>(
        self,
        utxo_set: Seq<Utxo>,
        user_ids: Seq<usize>,
        txs: Seq<Transaction<W>>,
    ) -> bool {
        &&& self.utxo_set@ == utxo_set_after(utxo_set, user_ids, txs)
        &&& self.untracked_additions@ == elems_added(txs).filter(untracked_by(user_ids))
        &&& self.untracked_deletions@ == elems_deleted(txs).filter(untracked_by(user_ids))
        &&& self.user_updates@.len() == user_ids.len()
        &&& forall|k: int|
            0 <= k < user_ids.len() ==> (#[trigger] self.user_updates@[k]).0 == user_ids[k]
                && self.user_updates@[k].1.is_update_for(user_ids[k], txs)
    }
}

/// A plan sorts every change of the block into exactly one place: an output
/// that the block creates is among the untracked additions if its owner is
/// no user of the bridge, and else in the update of its owner and of no other
/// user; nothing else is in either. The same holds of the outputs that the
/// block spends.
pub proof fn lemma_plan_sorts_every_change<W>(
    update: BridgeUpdate,
    utxo_set: Seq<Utxo>,
    user_ids: Seq<usize>,
    txs: Seq<Transaction<W>>,
    u: Utxo,
    k: int,
)
    requires
        update.follows(utxo_set, user_ids, txs),
        0 <= k < user_ids.len(),
    ensures
        update.untracked_additions@.contains(u) <==> elems_added(txs).contains(u)
            && !user_ids.contains(u.user_id),
        update.user_updates@[k].1.utxos_added@.contains(u) <==> elems_added(txs).contains(u)
            && u.user_id == user_ids[k],
        update.untracked_deletions@.contains(u) <==> elems_deleted(txs).contains(u)
            && !user_ids.contains(u.user_id),
        update.user_updates@[k].1.utxos_deleted@.contains(u) <==> elems_deleted(txs).contains(u)
            && u.user_id == user_ids[k],
{
    lemma_filter_contains(elems_added(txs), untracked_by(user_ids), u);
    lemma_filter_contains(elems_deleted(txs), untracked_by(user_ids), u);
    lemma_filter_contains(elems_added(txs), owned_by(user_ids[k]), u);
    lemma_filter_contains(elems_deleted(txs), owned_by(user_ids[k]), u);
    assert(update.user_updates@[k].1.is_update_for(user_ids[k], txs));
}

impl<W: Clone> Clone for Bridge<W> {
    fn clone(&self) -> (res: Self)
        ensures
            res@.bridge_id == self@.bridge_id,
            res@.utxo_set == self@.utxo_set,
            cloned(self@.utxo_set_witness, res@.utxo_set_witness),
            res@.block_height == self@.block_height,
            res@.user_ids == self@.user_ids,
    {
        proof {
            use_type_invariant(self);
        }
        let utxo_set = self.utxo_set.clone();
        let user_ids = self.user_ids.clone();
        assert(utxo_set@ == self.utxo_set@);
        assert(user_ids@ == self.user_ids@);
        Bridge {
            bridge_id: self.bridge_id,
            utxo_set,
            utxo_set_witness: self.utxo_set_witness.clone(),
            block_height: self.block_height,
            user_ids,
        }
    }
}

impl<W> Bridge<W> {
    #[verifier::type_invariant]
    spec fn users_are_distinct(self) -> bool {
        self.user_ids@.no_duplicates()
    }

    /// A bridge at height 0 that holds `utxo_set` with the witness
    /// `utxo_set_witness` for the users `user_ids`. A user named twice counts
    /// once.
    pub fn new(bridge_id: usize, utxo_set_witness: W, utxo_set: Vec<Utxo>, user_ids: Vec<usize>) -> (bridge: Self)
        ensures
            bridge@ == (BridgeView {
                bridge_id,
                utxo_set: utxo_set@,
                utxo_set_witness,
                block_height: 0,
                user_ids: distinct(user_ids@),
            }),
    {
        let mut ids: Vec<usize> = Vec::new();
        let mut k: usize = 0;
        while k < user_ids.len()
            invariant
                k <= user_ids.len(),
                ids@ == distinct(user_ids@.take(k as int)),
            decreases user_ids.len() - k,
        {
            assert(user_ids@.take(k + 1).drop_last() == user_ids@.take(k as int));
            if position_of(&ids, user_ids[k]).is_none() {
                ids.push(user_ids[k]);
            }
            k += 1;
        }
        proof {
            assert(user_ids@.take(k as int) == user_ids@);
            lemma_distinct(user_ids@);
        }
        Bridge { bridge_id, utxo_set, utxo_set_witness, block_height: 0, user_ids: ids }
    }

    /// The identifier of this bridge.
    pub fn bridge_id(&self) -> (id: usize)
        ensures
            id == self@.bridge_id,
    {
        self.bridge_id
    }

    /// The height of the last block applied.
    pub fn block_height(&self) -> (height: u64)
        ensures
            height == self@.block_height,
    {
        self.block_height
    }

    /// The unspent outputs of the bridge's users.
    pub fn utxo_set(&self) -> (utxo_set: &Vec<Utxo>)
        ensures
            utxo_set@ == self@.utxo_set,
    {
        &self.utxo_set
    }

    /// The aggregate witness for `utxo_set`.
    pub fn utxo_set_witness(&self) -> (witness: &W)
        ensures
            *witness == self@.utxo_set_witness,
    {
        &self.utxo_set_witness
    }

    /// The users of this bridge, none of them twice.
    pub fn user_ids(&self) -> (user_ids: &Vec<usize>)
        ensures
            user_ids@ == self@.user_ids,
            user_ids@.no_duplicates(),
    {
        proof {
            use_type_invariant(self);
        }
        &self.user_ids
    }

    /// What `block` asks of this bridge. A block is taken only at the height
    /// after the bridge's own; any other block asks nothing.
    pub fn plan_update<A, P>(&self, block: &Block<A, W, P>) -> (plan: Option<BridgeUpdate>)
        ensures
            plan is Some <==> block.height == self@.block_height + 1,
            plan matches Some(update) ==> update.height == block.height && update.follows(
                self@.utxo_set,
                self@.user_ids,
                block.transactions@,
            ),
    {
        if self.block_height == u64::MAX || block.height != self.block_height + 1 {
            return None;
        }
        let txs = block.transactions.as_slice();
        let mut utxo_set: Vec<Utxo> = self.utxo_set.clone();
        assert(utxo_set@ == self.utxo_set@);
        let mut i: usize = 0;
        while i < txs.len()
            invariant
                i <= txs.len(),
                utxo_set@ == utxo_set_after(self.utxo_set@, self.user_ids@, txs@.take(i as int)),
            decreases txs.len() - i,
        {
            let tx = &txs[i];
            let spent = outputs_of(tx.utxos_spent_with_witnesses.as_slice());
            let (spent_here, _) = split_tracked(&spent, &self.user_ids);
            let mut kept = remove_all(&utxo_set, &spent_here);
            let (mut created_here, _) = split_tracked(&tx.utxos_created, &self.user_ids);
            kept.append(&mut created_here);
            utxo_set = kept;
            assert(txs@.take(i + 1).drop_last() == txs@.take(i as int));
            i += 1;
        }
        assert(txs@.take(i as int) == txs@);
        let added = created_elems(txs);
        let deleted = spent_elems(txs);
        let (_, untracked_additions) = split_tracked(&added, &self.user_ids);
        let (_, untracked_deletions) = split_tracked(&deleted, &self.user_ids);
        let mut user_updates: Vec<(usize, UserUpdate)> = Vec::new();
        let mut k: usize = 0;
        while k < self.user_ids.len()
            invariant
                k <= self.user_ids.len(),
                added@ == elems_added(txs@),
                deleted@ == elems_deleted(txs@),
                user_updates@.len() == k,
                forall|n: int|
                    0 <= n < k ==> (#[trigger] user_updates@[n]).0 == self.user_ids@[n]
                        && user_updates@[n].1.is_update_for(self.user_ids@[n], txs@),
            decreases self.user_ids.len() - k,
        {
            let user_id = self.user_ids[k];
            let update = UserUpdate {
                utxos_added: select_owned(&added, user_id),
                utxos_deleted: select_owned(&deleted, user_id),
            };
            user_updates.push((user_id, update));
            k += 1;
        }
        Some(
            BridgeUpdate {
                height: block.height,
                utxo_set,
                untracked_additions,
                untracked_deletions,
                user_updates,
            },
        )
    }

    /// Moves the bridge to the state that `plan` describes, with `witness` as
    /// the aggregate witness for the new outputs, and hands out the users'
    /// updates to be sent. A plan for any height but the next is refused and
    /// changes nothing. The height never falls, and rises by exactly one with
    /// each plan taken.
    pub fn commit_update(&mut self, plan: BridgeUpdate, witness: W) -> (sent: Option<
        Vec<(usize, UserUpdate)>,
    >)
        ensures
            sent is Some <==> plan.height == old(self)@.block_height + 1,
            sent matches Some(updates) ==> updates == plan.user_updates && final(self)@ == (
            BridgeView {
                utxo_set: plan.utxo_set@,
                utxo_set_witness: witness,
                block_height: plan.height,
                ..old(self)@
            }),
            sent is None ==> final(self)@ == old(self)@,
            final(self)@.block_height == old(self)@.block_height + if sent is Some {
                1int
            } else {
                0int
            },
    {
        proof {
            use_type_invariant(&*self);
        }
        if self.block_height == u64::MAX || plan.height != self.block_height + 1 {
            return None;
        }
        self.utxo_set = plan.utxo_set;
        self.utxo_set_witness = witness;
        self.block_height = plan.height;
        Some(plan.user_updates)
    }

    /// Whether the bridge can answer `request`: it comes from one of the
    /// bridge's users and names only outputs that the bridge holds.
    pub fn can_serve(&self, request: &WitnessRequest) -> (ok: bool)
        ensures
            ok == (self@.user_ids.contains(request.user_id) && forall|i: int|
                0 <= i < request.utxos@.len() ==> self@.utxo_set.contains(
                    #[trigger] request.utxos@[i],
                )),
    {
        if position_of(&self.user_ids, request.user_id).is_none() {
            return false;
        }
        let mut i: usize = 0;
        while i < request.utxos.len()
            invariant
                i <= request.utxos.len(),
                forall|n: int|
                    0 <= n < i ==> self.utxo_set@.contains(#[trigger] request.utxos@[n]),
            decreases request.utxos.len() - i,
        {
            if !contains_utxo(&self.utxo_set, request.utxos[i]) {
                return false;
            }
            i += 1;
        }
        true
    }

    /// The response to `request` that carries `utxos_with_witnesses`, and the
    /// user to send it to. A request from a user of another bridge gets no
    /// response.
    pub fn respond(&self, request: &WitnessRequest, utxos_with_witnesses: Vec<(Utxo, W)>) -> (out:
        Option<(usize, WitnessResponse<W>)>)
        ensures
            out is Some <==> self@.user_ids.contains(request.user_id),
            out matches Some(addressed) ==> addressed.0 == request.user_id && addressed.1 == (
            WitnessResponse { request_id: request.request_id, utxos_with_witnesses }),
    {
        if position_of(&self.user_ids, request.user_id).is_none() {
            return None;
        }
        Some(
            (
                request.user_id,
                WitnessResponse { request_id: request.request_id, utxos_with_witnesses },
            ),
        )
    }
}

} // verus!
