//! The shared data model: unspent outputs, transactions and blocks.
use vstd::prelude::*;
use vstd::std_specs::cmp::PartialEqSpec;
use vstd::std_specs::cmp::PartialEqSpecImpl;

verus! {

/// An unspent transaction output: an opaque 128-bit identifier and the user who
/// owns it. Outputs carry no value.
#[derive(Clone, Copy, Debug, PartialEq, Eq, Hash, Structural)]
pub struct Utxo {
    pub id: u128,
    pub user_id: usize,
}

/// A transaction: the outputs it creates and the outputs it spends, each spent
/// output paired with a witness of type `W` that shows it to be unspent.
#[derive(Debug, Eq, Hash)]
pub struct Transaction<W> {
    pub utxos_created: Vec<Utxo>,
    pub utxos_spent_with_witnesses: Vec<(Utxo, W)>,
}

/// A block cut by a leader: the transactions it confirms, the accumulator value
/// `acc_new` after them, and the two membership proofs of the update.
#[derive(Clone, Debug, PartialEq, Eq, Hash)]
pub struct Block<A, W, P> {
    pub height: u64,
    pub transactions: Vec<Transaction<W>>,
    pub acc_new: A,
    pub proof_added: P,
    pub proof_deleted: P,
}

/// The first components of a sequence of (output, witness) pairs.
pub open spec fn without_witnesses<W>(pairs: Seq<(Utxo, W)>) -> Seq<Utxo> {
    pairs.map_values(|p: (Utxo, W)| p.0)
}

/// `dst` holds the outputs of `src` in the same order, each with a clone of its
/// witness.
pub open spec fn witnesses_cloned<W: Clone>(src: Seq<(Utxo, W)>, dst: Seq<(Utxo, W)>) -> bool {
    &&& dst.len() == src.len()
    &&& forall|i: int|
        0 <= i < src.len() ==> (#[trigger] dst[i]).0 == src[i].0 && cloned(src[i].1, dst[i].1)
}

impl<W> Transaction<W> {
    /// The outputs this transaction creates, in order.
    pub open spec fn created(self) -> Seq<Utxo> {
        self.utxos_created@
    }

    /// The outputs this transaction spends, in order, with their witnesses.
    pub open spec fn spent_with_witnesses(self) -> Seq<(Utxo, W)> {
        self.utxos_spent_with_witnesses@
    }

    /// The outputs this transaction spends, in order.
    pub open spec fn spent(self) -> Seq<Utxo> {
        without_witnesses(self.utxos_spent_with_witnesses@)
    }
}

/// `dst` is a clone of `src`: the same outputs, each witness cloned.
pub open spec fn transaction_cloned<W: Clone>(src: Transaction<W>, dst: Transaction<W>) -> bool {
    &&& dst.created() == src.created()
    &&& witnesses_cloned(src.spent_with_witnesses(), dst.spent_with_witnesses())
}

/// `dst` holds a clone of each transaction of `src`, in the same order.
pub open spec fn transactions_cloned<W: Clone>(
    src: Seq<Transaction<W>>,
    dst: Seq<Transaction<W>>,
) -> bool {
    &&& dst.len() == src.len()
    &&& forall|i: int| 0 <= i < src.len() ==> transaction_cloned(src[i], #[trigger] dst[i])
}

impl<W: Clone> Clone for Transaction<W> {
    fn clone(&self) -> (res: Self)
        ensures
            transaction_cloned(*self, res),
    {
        let mut created: Vec<Utxo> = Vec::new();
        let mut i: usize = 0;
        while i < self.utxos_created.len()
            invariant
                i <= self.utxos_created.len(),
                created@ == self.utxos_created@.take(i as int),
            decreases self.utxos_created.len() - i,
        {
            created.push(self.utxos_created[i]);
            i += 1;
        }
        let mut spent: Vec<(Utxo, W)> = Vec::new();
        let mut j: usize = 0;
        while j < self.utxos_spent_with_witnesses.len()
            invariant
                j <= self.utxos_spent_with_witnesses.len(),
                witnesses_cloned(self.utxos_spent_with_witnesses@.take(j as int), spent@),
            decreases self.utxos_spent_with_witnesses.len() - j,
        {
            let utxo = self.utxos_spent_with_witnesses[j].0;
            let witness = self.utxos_spent_with_witnesses[j].1.clone();
            spent.push((utxo, witness));
            j += 1;
        }
        assert(self.utxos_created@.take(i as int) == self.utxos_created@);
        assert(self.utxos_spent_with_witnesses@.take(j as int) == self.utxos_spent_with_witnesses@);
        Transaction { utxos_created: created, utxos_spent_with_witnesses: spent }
    }
}

impl<W: PartialEq> PartialEq for Transaction<W> {
    fn eq(&self, other: &Self) -> (r: bool) {
        let n = self.utxos_created.len();
        let m = self.utxos_spent_with_witnesses.len();
        if n != other.utxos_created.len() || m != other.utxos_spent_with_witnesses.len() {
            return false;
        }
        let mut i: usize = 0;
        while i < n
            invariant
                i <= n,
                n == self.utxos_created.len(),
                n == other.utxos_created.len(),
                self.utxos_created@.take(i as int) == other.utxos_created@.take(i as int),
            decreases n - i,
        {
            if self.utxos_created[i] != other.utxos_created[i] {
                return false;
            }
            i += 1;
        }
        assert(self.utxos_created@ == self.utxos_created@.take(n as int));
        assert(other.utxos_created@ == other.utxos_created@.take(n as int));
        let mut j: usize = 0;
        while j < m
            invariant
                j <= m,
                m == self.utxos_spent_with_witnesses.len(),
                m == other.utxos_spent_with_witnesses.len(),
                self.utxos_created@ == other.utxos_created@,
                W::obeys_eq_spec() ==> forall|k: int|
                    0 <= k < j ==> spent_pair_eq(
                        #[trigger] self.utxos_spent_with_witnesses[k],
                        other.utxos_spent_with_witnesses[k],
                    ),
            decreases m - j,
        {
            if self.utxos_spent_with_witnesses[j].0 != other.utxos_spent_with_witnesses[j].0 {
                return false;
            }
            if !(self.utxos_spent_with_witnesses[j].1 == other.utxos_spent_with_witnesses[j].1) {
                return false;
            }
            j += 1;
        }
        true
    }
}

/// Two (output, witness) pairs are equal: the same output, and witnesses that
/// `W`'s `==` holds equal.
pub open spec fn spent_pair_eq<W: PartialEq>(a: (Utxo, W), b: (Utxo, W)) -> bool {
    a.0 == b.0 && a.1.eq_spec(&b.1)
}

impl<W: PartialEq> PartialEqSpecImpl for Transaction<W> {
    open spec fn obeys_eq_spec() -> bool {
        W::obeys_eq_spec()
    }

    open spec fn eq_spec(&self, other: &Self) -> bool {
        &&& self.utxos_created@ == other.utxos_created@
        &&& self.utxos_spent_with_witnesses@.len() == other.utxos_spent_with_witnesses@.len()
        &&& forall|k: int|
            0 <= k < self.utxos_spent_with_witnesses@.len() ==> spent_pair_eq(
                #[trigger] self.utxos_spent_with_witnesses@[k],
                other.utxos_spent_with_witnesses@[k],
            )
    }
}

} // verus!
