//! Genesis layout: one output per user, and the fixed split of the users over
//! the bridges.
use vstd::prelude::*;
use crate::ident::is_random_uuid;
use crate::ident::random_id;
use crate::state::Utxo;

verus! {

/// The sum of `counts`.
pub open spec fn total(counts: Seq<usize>) -> int
    decreases counts.len(),
{
    if counts.len() == 0 {
        0
    } else {
        total(counts.drop_last()) + counts.last()
    }
}

/// The first user of bridge `bridge`: the number of users assigned to the
/// bridges before it.
pub open spec fn first_user_of(users_per_bridge: Seq<usize>, bridge: int) -> int {
    total(users_per_bridge.take(bridge))
}

/// Bridge `bridge` serves user `user`: the user lies in the bridge's range.
pub open spec fn serves(users_per_bridge: Seq<usize>, bridge: int, user: int) -> bool {
    &&& 0 <= bridge < users_per_bridge.len()
    &&& first_user_of(users_per_bridge, bridge) <= user < first_user_of(users_per_bridge, bridge)
        + users_per_bridge[bridge]
}

/// What one bridge starts from: the users it serves and their genesis outputs.
#[derive(Clone, Debug, PartialEq, Eq)]
pub struct BridgeGenesis {
    pub bridge_id: usize,
    pub user_ids: Vec<usize>,
    pub utxo_set: Vec<Utxo>,
}

impl BridgeGenesis {
    /// This is the genesis state of bridge `bridge` under the given split:
    /// its users are the next `users_per_bridge[bridge]` user ids after those
    /// of the bridges before it, and its outputs are those users' outputs.
    pub open spec fn is_share(
        self,
        user_utxos: Seq<Utxo>,
        users_per_bridge: Seq<usize>,
        bridge: int,
    ) -> bool {
        let first = first_user_of(users_per_bridge, bridge);
        let count = users_per_bridge[bridge] as int;
        &&& self.bridge_id == bridge
        &&& self.user_ids@.len() == count
        &&& forall|k: int| 0 <= k < count ==> #[trigger] self.user_ids@[k] == first + k
        &&& self.utxo_set@ == user_utxos.subrange(first, first + count)
    }
}

/// Why a split of users over bridges is refused.
#[derive(Clone, Copy, Debug, PartialEq, Eq, Structural)]
pub enum GenesisError {
    /// The bridges are assigned more users than there are.
    TooManyAssigned,
    /// Some users are assigned to no bridge.
    TooFewAssigned,
}

/// The sum of a prefix with one more element.
pub proof fn lemma_total_take_next(counts: Seq<usize>, k: int)
    requires
        0 <= k < counts.len(),
    ensures
        total(counts.take(k + 1)) == total(counts.take(k)) + counts[k],
{
    assert(counts.take(k + 1).drop_last() == counts.take(k));
}

/// The sum of a prefix never exceeds the sum of a longer prefix.
pub proof fn lemma_total_monotone(counts: Seq<usize>, j: int, k: int)
    requires
        0 <= j <= k <= counts.len(),
    ensures
        total(counts.take(j)) <= total(counts.take(k)),
    decreases k - j,
{
    if j < k {
        lemma_total_monotone(counts, j, k - 1);
        lemma_total_take_next(counts, k - 1);
    }
}

/// The genesis outputs for the given identifiers: user `i` owns one output,
/// with identifier `ids[i]`.
pub fn genesis_utxos_with_ids(ids: &[u128]) -> (utxos: Vec<Utxo>)
    ensures
        utxos@.len() == ids@.len(),
        forall|i: int|
            0 <= i < ids@.len() ==> #[trigger] utxos@[i] == (Utxo { id: ids@[i], user_id: i as usize }),
{
    let mut utxos: Vec<Utxo> = Vec::new();
    let mut i: usize = 0;
    while i < ids.len()
        invariant
            i <= ids.len(),
            utxos@.len() == i,
            forall|k: int|
                0 <= k < i ==> #[trigger] utxos@[k] == (Utxo { id: ids@[k], user_id: k as usize }),
        decreases ids.len() - i,
    {
        utxos.push(Utxo { id: ids[i], user_id: i });
        i += 1;
    }
    utxos
}

/// The genesis outputs of `num_users` users: user `i` owns one output with a
/// freshly drawn random identifier.
pub fn genesis_utxos(num_users: usize) -> (utxos: Vec<Utxo>)
    ensures
        utxos@.len() == num_users,
        forall|i: int|
            0 <= i < num_users ==> (#[trigger] utxos@[i]).user_id == i && is_random_uuid(
                utxos@[i].id,
            ),
{
    let mut ids: Vec<u128> = Vec::new();
    let mut i: usize = 0;
    while i < num_users
        invariant
            i <= num_users,
            ids@.len() == i,
            forall|k: int| 0 <= k < i ==> is_random_uuid(#[trigger] ids@[k]),
        decreases num_users - i,
    {
        ids.push(random_id());
        i += 1;
    }
    genesis_utxos_with_ids(ids.as_slice())
}

/// Splits the users over the bridges: bridge `b` serves the next
/// `users_per_bridge[b]` users after those of the bridges before it, and starts
/// from their genesis outputs. `user_utxos[i]` is the genesis output of user
/// `i`. The split is refused unless it assigns every user exactly once.
pub fn bridge_partitions(user_utxos: &[Utxo], users_per_bridge: &[usize]) -> (res: Result<
    Vec<BridgeGenesis>,
    GenesisError,
>)
    ensures
        res is Ok <==> total(users_per_bridge@) == user_utxos@.len(),
        res == Err::<Vec<BridgeGenesis>, GenesisError>(GenesisError::TooManyAssigned) <==> total(
            users_per_bridge@,
        ) > user_utxos@.len(),
        res == Err::<Vec<BridgeGenesis>, GenesisError>(GenesisError::TooFewAssigned) <==> total(
            users_per_bridge@,
        ) < user_utxos@.len(),
        res matches Ok(shares) ==> {
            &&& shares@.len() == users_per_bridge@.len()
            &&& forall|b: int|
                0 <= b < shares@.len() ==> (#[trigger] shares@[b]).is_share(
                    user_utxos@,
                    users_per_bridge@,
                    b,
                )
        },
{
    let num_users = user_utxos.len();
    let mut shares: Vec<BridgeGenesis> = Vec::new();
    let mut next: usize = 0;
    let mut b: usize = 0;
    while b < users_per_bridge.len()
        invariant
            b <= users_per_bridge.len(),
            num_users == user_utxos@.len(),
            next == first_user_of(users_per_bridge@, b as int),
            next <= num_users,
            shares@.len() == b,
            forall|k: int|
                0 <= k < b ==> (#[trigger] shares@[k]).is_share(user_utxos@, users_per_bridge@, k),
        decreases users_per_bridge.len() - b,
    {
        let count = users_per_bridge[b];
        proof {
            lemma_total_take_next(users_per_bridge@, b as int);
        }
        if count > num_users - next {
            proof {
                lemma_total_monotone(
                    users_per_bridge@,
                    b + 1,
                    users_per_bridge@.len() as int,
                );
                assert(users_per_bridge@.take(users_per_bridge@.len() as int)
                    == users_per_bridge@);
            }
            return Err(GenesisError::TooManyAssigned);
        }
        let mut user_ids: Vec<usize> = Vec::new();
        let mut utxo_set: Vec<Utxo> = Vec::new();
        let mut k: usize = 0;
        while k < count
            invariant
                k <= count,
                next + count <= num_users,
                num_users == user_utxos@.len(),
                user_ids@.len() == k,
                forall|n: int| 0 <= n < k ==> #[trigger] user_ids@[n] == next + n,
                utxo_set@ == user_utxos@.subrange(next as int, next + k),
            decreases count - k,
        {
            user_ids.push(next + k);
            utxo_set.push(user_utxos[next + k]);
            assert(user_utxos@.subrange(next as int, next + k + 1) == user_utxos@.subrange(
                next as int,
                next + k,
            ).push(user_utxos@[next + k]));
            k += 1;
        }
        shares.push(BridgeGenesis { bridge_id: b, user_ids, utxo_set });
        next = next + count;
        b += 1;
    }
    assert(users_per_bridge@.take(b as int) == users_per_bridge@);
    if next < num_users {
        return Err(GenesisError::TooFewAssigned);
    }
    Ok(shares)
}

/// A split that assigns as many users as there are gives every user exactly
/// one bridge: some bridge serves the user, and no two bridges do.
pub proof fn lemma_partition_is_exact(users_per_bridge: Seq<usize>, user: int)
    requires
        0 <= user < total(users_per_bridge),
    ensures
        exists|b: int| serves(users_per_bridge, b, user),
        forall|b1: int, b2: int|
            serves(users_per_bridge, b1, user) && serves(users_per_bridge, b2, user) ==> b1 == b2,
{
    assert(users_per_bridge.take(users_per_bridge.len() as int) == users_per_bridge);
    lemma_some_bridge_serves(users_per_bridge, users_per_bridge.len() as int, user);
    assert forall|b1: int, b2: int|
        serves(users_per_bridge, b1, user) && serves(users_per_bridge, b2, user) implies b1
        == b2 by {
        if b1 < b2 {
            lemma_total_take_next(users_per_bridge, b1);
            lemma_total_monotone(users_per_bridge, b1 + 1, b2);
        } else if b2 < b1 {
            lemma_total_take_next(users_per_bridge, b2);
            lemma_total_monotone(users_per_bridge, b2 + 1, b1);
        }
    }
}

/// A user below the sum of the first `n` counts is served by one of the first
/// `n` bridges.
proof fn lemma_some_bridge_serves(users_per_bridge: Seq<usize>, n: int, user: int)
    requires
        0 <= n <= users_per_bridge.len(),
        0 <= user < total(users_per_bridge.take(n)),
    ensures
        exists|b: int| 0 <= b < n && serves(users_per_bridge, b, user),
    decreases n,
{
    if n > 0 {
        lemma_total_take_next(users_per_bridge, n - 1);
        if user < total(users_per_bridge.take(n - 1)) {
            lemma_some_bridge_serves(users_per_bridge, n - 1, user);
        } else {
            assert(serves(users_per_bridge, n - 1, user));
        }
    }
}

} // verus!
