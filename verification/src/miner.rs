//! The miner: holds the canonical accumulator value, buffers transactions,
//! forges blocks when it leads, and validates every block.
//!
//! The accumulator operations run outside: the miner says which elements they
//! are to be given, and takes their results back.
use vstd::prelude::*;
use vstd::std_specs::cmp::PartialEqSpec;
use crate::state::transactions_cloned;
use crate::state::witnesses_cloned;
use crate::state::Block;
use crate::state::Transaction;
use crate::state::Utxo;
use crate::util::created_elems;
use crate::util::elems_added;
use crate::util::elems_deleted;
use crate::util::elems_deleted_with_witnesses;
use crate::util::elems_from_transactions;
use crate::util::spent_elems;

verus! {

/// What the three checks of a block found.
#[derive(Clone, Copy, Debug, PartialEq, Eq, Structural)]
pub struct ProofChecks {
    /// The miner's accumulator verifies the membership of the block's spent
    /// outputs under `proof_deleted`.
    pub deleted_verified: bool,
    /// The block's `acc_new` verifies the membership of the block's created
    /// outputs under `proof_added`.
    pub added_verified: bool,
    /// `proof_deleted` and `proof_added` carry the same witness.
    pub witnesses_match: bool,
}

/// The check that a block at the expected height has failed.
#[derive(Clone, Copy, Debug, PartialEq, Eq, Structural)]
pub enum ProtocolViolation {
    /// The spent outputs are not shown to be in the accumulator.
    DeletedNotVerified,
    /// The created outputs are not shown to be in the new accumulator.
    AddedNotVerified,
    /// The two proofs do not share their witness.
    WitnessMismatch,
}

/// What became of a block that broke no rule.
#[derive(Clone, Copy, Debug, PartialEq, Eq, Structural)]
pub enum BlockOutcome {
    /// The block is not at the next height: nothing changed.
    Ignored,
    /// The block was adopted.
    Applied,
}

/// What validation makes of a block of height `block_height` at a miner of
/// height `height`, given the results of the checks. The checks count only at
/// the expected height, and the first that fails is reported.
pub open spec fn validation_result(height: u64, block_height: u64, checks: ProofChecks) -> Result<
    BlockOutcome,
    ProtocolViolation,
> {
    if block_height != height + 1 {
        Ok(BlockOutcome::Ignored)
    } else if !checks.deleted_verified {
        Err(ProtocolViolation::DeletedNotVerified)
    } else if !checks.added_verified {
        Err(ProtocolViolation::AddedNotVerified)
    } else if !checks.witnesses_match {
        Err(ProtocolViolation::WitnessMismatch)
    } else {
        Ok(BlockOutcome::Applied)
    }
}

/// No block is adopted unverified: validation adopts a block exactly if it
/// stands at the next height and all three checks passed. So every output
/// that an adopted block spends was shown to be in the miner's accumulator.
pub proof fn lemma_adopted_block_is_verified(height: u64, block_height: u64, checks: ProofChecks)
    ensures
        validation_result(height, block_height, checks) == Ok::<BlockOutcome, ProtocolViolation>(
            BlockOutcome::Applied,
        ) <==> block_height == height + 1 && checks.deleted_verified && checks.added_verified
            && checks.witnesses_match,
        validation_result(height, block_height, checks) is Err ==> block_height == height + 1,
{
}

/// Some transaction of `pending` is equal to `transaction`.
pub open spec fn is_pending<W: PartialEq>(
    pending: Seq<Transaction<W>>,
    transaction: Transaction<W>,
) -> bool {
    exists|i: int| 0 <= i < pending.len() && (#[trigger] pending[i]).eq_spec(&transaction)
}

/// A miner node.
pub struct Miner<A, W> {
    acc: A,
    block_height: u64,
    pending_transactions: Vec<Transaction<W>>,
}

/// The state of a miner as contracts see it.
pub ghost struct MinerView<A, W> {
    pub acc: A,
    pub block_height: u64,
    pub pending_transactions: Seq<Transaction<W>>,
}

impl<A, W> View for Miner<A, W> {
    type V = MinerView<A, W>;

    closed spec fn view(&self) -> MinerView<A, W> {
        MinerView {
            acc: self.acc,
            block_height: self.block_height,
            pending_transactions: self.pending_transactions@,
        }
    }
}

impl<A, W> Miner<A, W> {
    /// A miner at height 0 with the accumulator value `acc` and no pending
    /// transactions.
    pub fn new(acc: A) -> (miner: Self)
        ensures
            miner@ == (MinerView::<A, W> { acc, block_height: 0, pending_transactions: Seq::empty() }),
    {
        Miner { acc, block_height: 0, pending_transactions: Vec::new() }
    }

    /// The accumulator value after the last block applied.
    pub fn acc(&self) -> (acc: &A)
        ensures
            *acc == self@.acc,
    {
        &self.acc
    }

    /// The height of the last block applied.
    pub fn block_height(&self) -> (height: u64)
        ensures
            height == self@.block_height,
    {
        self.block_height
    }

    /// The transactions waiting for the next block, in the order they came.
    pub fn pending_transactions(&self) -> (pending: &Vec<Transaction<W>>)
        ensures
            pending@ == self@.pending_transactions,
    {
        &self.pending_transactions
    }

    /// Takes in a transaction: it is appended to the pending transactions
    /// unless an equal one is already there.
    pub fn add_transaction(&mut self, transaction: Transaction<W>) where W: PartialEq
        ensures
            final(self)@.acc == old(self)@.acc,
            final(self)@.block_height == old(self)@.block_height,
            final(self)@.pending_transactions == old(self)@.pending_transactions
                || final(self)@.pending_transactions == old(self)@.pending_transactions.push(
                transaction,
            ),
            W::obeys_eq_spec() ==> final(self)@.pending_transactions == if is_pending(
                old(self)@.pending_transactions,
                transaction,
            ) {
                old(self)@.pending_transactions
            } else {
                old(self)@.pending_transactions.push(transaction)
            },
    {
        let mut i: usize = 0;
        while i < self.pending_transactions.len()
            invariant
                i <= self.pending_transactions.len(),
                *self == *old(self),
                W::obeys_eq_spec() ==> forall|k: int|
                    0 <= k < i ==> !(#[trigger] self.pending_transactions@[k]).eq_spec(
                        &transaction,
                    ),
            decreases self.pending_transactions.len() - i,
        {
            if self.pending_transactions[i] == transaction {
                return ;
            }
            i += 1;
        }
        self.pending_transactions.push(transaction);
    }

    /// The elements that forging the next block is to hand to the
    /// accumulator: the outputs that the pending transactions create, and
    /// those that they spend, each with a clone of its witness.
    pub fn forge_inputs(&self) -> (elems: (Vec<Utxo>, Vec<(Utxo, W)>)) where W: Clone
        ensures
            elems.0@ == elems_added(self@.pending_transactions),
            witnesses_cloned(elems_deleted_with_witnesses(self@.pending_transactions), elems.1@),
    {
        elems_from_transactions(self.pending_transactions.as_slice())
    }

    /// The block that this miner forges once the accumulator update is
    /// computed: it stands at the next height, carries a clone of every
    /// pending transaction in order, and holds the new accumulator value with
    /// its two proofs. The miner itself does not change: it advances when it
    /// validates the block.
    pub fn forge_block<P>(&self, acc_new: A, proof_added: P, proof_deleted: P) -> (block: Block<
        A,
        W,
        P,
    >) where W: Clone
        requires
            self@.block_height < u64::MAX,
        ensures
            block.height == self@.block_height + 1,
            transactions_cloned(self@.pending_transactions, block.transactions@),
            block.acc_new == acc_new,
            block.proof_added == proof_added,
            block.proof_deleted == proof_deleted,
    {
        let transactions = self.pending_transactions.clone();
        Block { height: self.block_height + 1, transactions, acc_new, proof_added, proof_deleted }
    }

    /// Whether a block of height `height` is the next one for this miner.
    pub fn expects(&self, height: u64) -> (next: bool)
        ensures
            next == (height == self@.block_height + 1),
    {
        self.block_height < u64::MAX && height == self.block_height + 1
    }

    /// The elements whose membership the checks of `block` are to verify: the
    /// outputs that the block creates, against `acc_new`, and the outputs that
    /// it spends, against the miner's accumulator. A block at any height but
    /// the next is not checked at all.
    pub fn validation_inputs<P>(&self, block: &Block<A, W, P>) -> (elems: Option<
        (Vec<Utxo>, Vec<Utxo>),
    >)
        ensures
            elems is Some <==> block.height == self@.block_height + 1,
            elems matches Some(lists) ==> lists.0@ == elems_added(block.transactions@) && lists.1@
                == elems_deleted(block.transactions@),
    {
        if !self.expects(block.height) {
            return None;
        }
        let added = created_elems(block.transactions.as_slice());
        let deleted = spent_elems(block.transactions.as_slice());
        Some((added, deleted))
    }

    /// Validates `block` given what its checks found. A block at any height
    /// but the next is ignored; a block at the next height that fails a check
    /// is a protocol violation, and changes nothing; a block that passes all
    /// three is adopted: the miner takes its accumulator value and its height,
    /// and drops its pending transactions. The height never falls, and rises
    /// by exactly one with each block adopted.
    pub fn validate_block<P>(&mut self, block: Block<A, W, P>, checks: ProofChecks) -> (res: Result<
        BlockOutcome,
        ProtocolViolation,
    >)
        ensures
            res == validation_result(old(self)@.block_height, block.height, checks),
            res == Ok::<BlockOutcome, ProtocolViolation>(BlockOutcome::Applied) ==> final(self)@
                == (MinerView::<A, W> {
                acc: block.acc_new,
                block_height: block.height,
                pending_transactions: Seq::empty(),
            }),
            res != Ok::<BlockOutcome, ProtocolViolation>(BlockOutcome::Applied) ==> final(self)@
                == old(self)@,
            final(self)@.block_height == old(self)@.block_height + if res == Ok::<
                BlockOutcome,
                ProtocolViolation,
            >(BlockOutcome::Applied) {
                1int
            } else {
                0int
            },
    {
        if !self.expects(block.height) {
            return Ok(BlockOutcome::Ignored);
        }
        if !checks.deleted_verified {
            return Err(ProtocolViolation::DeletedNotVerified);
        }
        if !checks.added_verified {
            return Err(ProtocolViolation::AddedNotVerified);
        }
        if !checks.witnesses_match {
            return Err(ProtocolViolation::WitnessMismatch);
        }
        self.acc = block.acc_new;
        self.block_height = block.height;
        self.pending_transactions = Vec::new();
        Ok(BlockOutcome::Applied)
    }
}

} // verus!
