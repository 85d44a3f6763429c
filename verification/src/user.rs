//! The user: owns a few outputs and spends one per block cycle.
//!
//! One round of the user's protocol is: ask the bridge for a witness of an
//! owned output; on the matching response, submit a transaction that spends
//! the output and creates a new one; then wait for the first update that is
//! not empty and apply it. Sending and receiving happen outside: each function
//! here takes what was received and says what is to be sent next.
use vstd::prelude::*;
use crate::bridge::UserUpdate;
use crate::bridge::WitnessRequest;
use crate::bridge::WitnessResponse;
use crate::ident::is_random_uuid;
use crate::ident::random_id;
use crate::select::contains_utxo;
use crate::select::lemma_filter_no_duplicates;
use crate::select::not_among;
use crate::select::occurs_before;
use crate::select::remove_all;
use crate::state::Transaction;
use crate::state::Utxo;

verus! {

/// Where a user stands in its round.
#[derive(Clone, Copy, Debug, PartialEq, Eq, Structural)]
pub enum UserPhase {
    /// Between rounds: the next step is to ask for a witness.
    Idle,
    /// A request with `request_id` for the witness of `utxo` is out.
    AwaitingWitness { request_id: u128, utxo: Utxo },
    /// A transaction is out and no update that confirms it has come.
    AwaitingUpdate,
}

/// Why a step of the user's protocol is refused. A refused step changes
/// nothing.
#[derive(Clone, Copy, Debug, PartialEq, Eq, Structural)]
pub enum UserError {
    /// The step does not belong to the phase the user is in.
    OutOfTurn,
    /// The user owns no output that it could spend.
    NothingToSpend,
    /// An update deletes an output that the user does not own, or deletes
    /// one output twice.
    UnknownUtxo,
}

/// What a user does with a witness response.
#[derive(Debug, PartialEq, Eq)]
pub enum ResponseAction<W> {
    /// The response answers another request: send this request again.
    Resend(WitnessRequest),
    /// The response answers the user's request: submit this transaction.
    Submit(Transaction<W>),
}

/// What a user did with an update.
#[derive(Clone, Copy, Debug, PartialEq, Eq, Structural)]
pub enum UpdateAction {
    /// The update was empty: the round goes on waiting.
    Skipped,
    /// The update was applied: the round is over.
    Applied,
}

/// `set` with the outputs of `added` inserted in order, each unless it is
/// there already.
pub open spec fn with_added(set: Seq<Utxo>, added: Seq<Utxo>) -> Seq<Utxo>
    decreases added.len(),
{
    if added.len() == 0 {
        set
    } else {
        let front = with_added(set, added.drop_last());
        if front.contains(added.last()) {
            front
        } else {
            front.push(added.last())
        }
    }
}

/// Every output of `deleted` is in `set`, and none is deleted twice.
pub open spec fn removable(set: Seq<Utxo>, deleted: Seq<Utxo>) -> bool {
    &&& deleted.no_duplicates()
    &&& forall|i: int| 0 <= i < deleted.len() ==> set.contains(#[trigger] deleted[i])
}

/// The outputs a user owns after an update: what it owned, less the deleted
/// outputs, and then the added ones.
pub open spec fn utxo_set_after_update(set: Seq<Utxo>, added: Seq<Utxo>, deleted: Seq<Utxo>) -> Seq<
    Utxo,
> {
    with_added(set.filter(not_among(deleted)), added)
}

/// After insertion a list holds exactly the outputs of both lists.
pub proof fn lemma_with_added_contains(set: Seq<Utxo>, added: Seq<Utxo>, u: Utxo)
    ensures
        with_added(set, added).contains(u) <==> set.contains(u) || added.contains(u),
    decreases added.len(),
{
    if added.len() > 0 {
        let rest = added.drop_last();
        let front = with_added(set, rest);
        let all = with_added(set, added);
        lemma_with_added_contains(set, rest, u);
        if all.contains(u) {
            let j = choose|j: int| 0 <= j < all.len() && all[j] == u;
            if j < front.len() {
                assert(front[j] == u);
                assert(front.contains(u));
                if rest.contains(u) {
                    let i = choose|i: int| 0 <= i < rest.len() && rest[i] == u;
                    assert(added[i] == u);
                }
            } else {
                assert(added[added.len() - 1] == u);
            }
        }
        if added.contains(u) {
            let i = choose|i: int| 0 <= i < added.len() && added[i] == u;
            if i < rest.len() {
                assert(rest[i] == u);
                assert(rest.contains(u));
            }
        }
        if front.contains(u) {
            let j = choose|j: int| 0 <= j < front.len() && front[j] == u;
            assert(all[j] == u);
        } else if u == added.last() {
            assert(all[all.len() - 1] == u);
        }
    }
}

/// Inserting into a list without repetitions leaves no repetitions.
pub proof fn lemma_with_added_no_duplicates(set: Seq<Utxo>, added: Seq<Utxo>)
    requires
        set.no_duplicates(),
    ensures
        with_added(set, added).no_duplicates(),
    decreases added.len(),
{
    if added.len() > 0 {
        lemma_with_added_no_duplicates(set, added.drop_last());
    }
}

/// A user: its identifier, the outputs it owns, and where it stands in its
/// round.
#[derive(Debug)]
pub struct User {
    id: usize,
    utxo_set: Vec<Utxo>,
    phase: UserPhase,
}

/// The state of a user as contracts see it. `utxo_set` lists the owned
/// outputs in the order they were acquired.
pub ghost struct UserView {
    pub id: usize,
    pub utxo_set: Seq<Utxo>,
    pub phase: UserPhase,
}

impl View for User {
    type V = UserView;

    closed spec fn view(&self) -> UserView {
        UserView { id: self.id, utxo_set: self.utxo_set@, phase: self.phase }
    }
}

impl User {
    #[verifier::type_invariant]
    spec fn owns_each_once(self) -> bool {
        self.utxo_set@.no_duplicates()
    }

    /// A user between rounds that owns the single output `init_utxo`.
    pub fn new(id: usize, init_utxo: Utxo) -> (user: Self)
        ensures
            user@ == (UserView { id, utxo_set: seq![init_utxo], phase: UserPhase::Idle }),
    {
        let mut utxo_set: Vec<Utxo> = Vec::new();
        utxo_set.push(init_utxo);
        assert(utxo_set@ == seq![init_utxo]);
        User { id, utxo_set, phase: UserPhase::Idle }
    }

    /// The identifier of this user.
    pub fn id(&self) -> (id: usize)
        ensures
            id == self@.id,
    {
        self.id
    }

    /// The outputs this user owns, none of them twice.
    pub fn utxo_set(&self) -> (utxo_set: &Vec<Utxo>)
        ensures
            utxo_set@ == self@.utxo_set,
            utxo_set@.no_duplicates(),
    {
        proof {
            use_type_invariant(self);
        }
        &self.utxo_set
    }

    /// Where this user stands in its round.
    pub fn phase(&self) -> (phase: UserPhase)
        ensures
            phase == self@.phase,
    {
        self.phase
    }

    /// The output that the next transaction spends: the one owned longest.
    /// There is none if the user owns nothing.
    pub fn get_input_for_transaction(&self) -> (input: Option<Utxo>)
        ensures
            input == if self@.utxo_set.len() > 0 {
                Some(self@.utxo_set[0])
            } else {
                None
            },
    {
        if self.utxo_set.len() > 0 {
            Some(self.utxo_set[0])
        } else {
            None
        }
    }

    /// Applies an update: removes the deleted outputs, then inserts the added
    /// ones. An update that deletes an output that the user does not own, or
    /// one output twice, is refused and changes nothing.
    pub fn update(&mut self, update: UserUpdate) -> (res: Result<(), UserError>)
        ensures
            res is Ok <==> removable(old(self)@.utxo_set, update.utxos_deleted@),
            res is Ok ==> final(self)@ == (UserView {
                utxo_set: utxo_set_after_update(
                    old(self)@.utxo_set,
                    update.utxos_added@,
                    update.utxos_deleted@,
                ),
                ..old(self)@
            }),
            res is Err ==> res == Err::<(), UserError>(UserError::UnknownUtxo) && final(self)@
                == old(self)@,
    {
        proof {
            use_type_invariant(&*self);
        }
        let mut i: usize = 0;
        while i < update.utxos_deleted.len()
            invariant
                i <= update.utxos_deleted.len(),
                *self == *old(self),
                update.utxos_deleted@.take(i as int).no_duplicates(),
                forall|n: int|
                    0 <= n < i ==> self.utxo_set@.contains(#[trigger] update.utxos_deleted@[n]),
            decreases update.utxos_deleted.len() - i,
        {
            let ghost deleted = update.utxos_deleted@;
            if !contains_utxo(&self.utxo_set, update.utxos_deleted[i]) {
                return Err(UserError::UnknownUtxo);
            }
            if occurs_before(&update.utxos_deleted, i) {
                proof {
                    let j = choose|j: int|
                        0 <= j < i && deleted.take(i as int)[j] == deleted[i as int];
                    assert(deleted[j] == deleted[i as int]);
                }
                return Err(UserError::UnknownUtxo);
            }
            proof {
                let next = deleted.take(i + 1);
                assert forall|a: int, b: int|
                    0 <= a < next.len() && 0 <= b < next.len() && a != b implies next[a]
                    != next[b] by {
                    let prefix = deleted.take(i as int);
                    if a < i && b < i {
                        assert(prefix[a] != prefix[b]);
                    } else if a < i {
                        assert(prefix[a] == next[a]);
                    } else {
                        assert(prefix[b] == next[b]);
                    }
                }
            }
            i += 1;
        }
        assert(update.utxos_deleted@.take(i as int) == update.utxos_deleted@);
        let mut utxo_set = remove_all(&self.utxo_set, &update.utxos_deleted);
        proof {
            lemma_filter_no_duplicates(self.utxo_set@, not_among(update.utxos_deleted@));
        }
        let ghost kept = utxo_set@;
        let mut k: usize = 0;
        while k < update.utxos_added.len()
            invariant
                k <= update.utxos_added.len(),
                kept.no_duplicates(),
                utxo_set@ == with_added(kept, update.utxos_added@.take(k as int)),
            decreases update.utxos_added.len() - k,
        {
            assert(update.utxos_added@.take(k + 1).drop_last() == update.utxos_added@.take(
                k as int,
            ));
            if !contains_utxo(&utxo_set, update.utxos_added[k]) {
                utxo_set.push(update.utxos_added[k]);
            }
            k += 1;
        }
        proof {
            assert(update.utxos_added@.take(k as int) == update.utxos_added@);
            lemma_with_added_no_duplicates(kept, update.utxos_added@);
        }
        self.utxo_set = utxo_set;
        Ok(())
    }

    /// Opens a round with the request identifier `request_id`: picks the
    /// output to spend and gives the witness request to send for it. Refused
    /// in the middle of a round, and when the user owns nothing.
    pub fn begin_round_with(&mut self, request_id: u128) -> (res: Result<WitnessRequest, UserError>)
        ensures
            res is Ok <==> old(self)@.phase == UserPhase::Idle && old(self)@.utxo_set.len() > 0,
            res == Err::<WitnessRequest, UserError>(UserError::OutOfTurn) <==> old(self)@.phase
                != UserPhase::Idle,
            res matches Ok(request) ==> {
                &&& request.user_id == old(self)@.id
                &&& request.request_id == request_id
                &&& request.utxos@ == seq![old(self)@.utxo_set[0]]
                &&& final(self)@ == (UserView {
                    phase: UserPhase::AwaitingWitness {
                        request_id,
                        utxo: old(self)@.utxo_set[0],
                    },
                    ..old(self)@
                })
            },
            res matches Err(e) ==> final(self)@ == old(self)@ && (e == UserError::OutOfTurn || e
                == UserError::NothingToSpend),
    {
        proof {
            use_type_invariant(&*self);
        }
        match self.phase {
            UserPhase::Idle => {},
            _ => {
                return Err(UserError::OutOfTurn);
            },
        }
        match self.get_input_for_transaction() {
            None => Err(UserError::NothingToSpend),
            Some(utxo) => {
                self.phase = UserPhase::AwaitingWitness { request_id, utxo };
                let mut utxos: Vec<Utxo> = Vec::new();
                utxos.push(utxo);
                assert(utxos@ == seq![utxo]);
                Ok(WitnessRequest { user_id: self.id, request_id, utxos })
            },
        }
    }

    /// Opens a round as `begin_round_with` does, with a freshly drawn random
    /// request identifier.
    pub fn begin_round(&mut self) -> (res: Result<WitnessRequest, UserError>)
        ensures
            res is Ok <==> old(self)@.phase == UserPhase::Idle && old(self)@.utxo_set.len() > 0,
            res == Err::<WitnessRequest, UserError>(UserError::OutOfTurn) <==> old(self)@.phase
                != UserPhase::Idle,
            res matches Ok(request) ==> {
                &&& request.user_id == old(self)@.id
                &&& is_random_uuid(request.request_id)
                &&& request.utxos@ == seq![old(self)@.utxo_set[0]]
                &&& final(self)@ == (UserView {
                    phase: UserPhase::AwaitingWitness {
                        request_id: request.request_id,
                        utxo: old(self)@.utxo_set[0],
                    },
                    ..old(self)@
                })
            },
            res matches Err(e) ==> final(self)@ == old(self)@ && (e == UserError::OutOfTurn || e
                == UserError::NothingToSpend),
    {
        let request_id = random_id();
        self.begin_round_with(request_id)
    }

    /// Takes a witness response while a request is out. A response to
    /// another request is discarded and the user's request is to be sent
    /// again. The matching response ends the wait: the user submits a
    /// transaction that spends the requested output with the witnesses of the
    /// response and creates one output of its own with the identifier
    /// `new_utxo_id`. Refused when no request is out.
    pub fn on_response_with<W>(&mut self, response: WitnessResponse<W>, new_utxo_id: u128) -> (res:
        Result<ResponseAction<W>, UserError>)
        ensures
            match old(self)@.phase {
                UserPhase::AwaitingWitness { request_id, utxo } => {
                    if response.request_id == request_id {
                        &&& res matches Ok(ResponseAction::Submit(tx))
                        &&& tx.utxos_created@ == seq![
                            Utxo { id: new_utxo_id, user_id: old(self)@.id },
                        ]
                        &&& tx.utxos_spent_with_witnesses == response.utxos_with_witnesses
                        &&& final(self)@ == (UserView {
                            phase: UserPhase::AwaitingUpdate,
                            ..old(self)@
                        })
                    } else {
                        &&& res matches Ok(ResponseAction::Resend(request))
                        &&& request.user_id == old(self)@.id
                        &&& request.request_id == request_id
                        &&& request.utxos@ == seq![utxo]
                        &&& final(self)@ == old(self)@
                    }
                },
                _ => res == Err::<ResponseAction<W>, UserError>(UserError::OutOfTurn) && final(self)@ == old(self)@,
            },
    {
        proof {
            use_type_invariant(&*self);
        }
        match self.phase {
            UserPhase::AwaitingWitness { request_id, utxo } => {
                if response.request_id == request_id {
                    let mut utxos_created: Vec<Utxo> = Vec::new();
                    utxos_created.push(Utxo { id: new_utxo_id, user_id: self.id });
                    assert(utxos_created@ == seq![Utxo { id: new_utxo_id, user_id: self.id }]);
                    self.phase = UserPhase::AwaitingUpdate;
                    Ok(
                        ResponseAction::Submit(
                            Transaction {
                                utxos_created,
                                utxos_spent_with_witnesses: response.utxos_with_witnesses,
                            },
                        ),
                    )
                } else {
                    let mut utxos: Vec<Utxo> = Vec::new();
                    utxos.push(utxo);
                    assert(utxos@ == seq![utxo]);
                    Ok(ResponseAction::Resend(WitnessRequest { user_id: self.id, request_id, utxos }))
                }
            },
            _ => Err(UserError::OutOfTurn),
        }
    }

    /// Takes a witness response as `on_response_with` does, with a freshly
    /// drawn random identifier for the output that the transaction creates.
    pub fn on_response<W>(&mut self, response: WitnessResponse<W>) -> (res: Result<
        ResponseAction<W>,
        UserError,
    >)
        ensures
            match old(self)@.phase {
                UserPhase::AwaitingWitness { request_id, utxo } => {
                    if response.request_id == request_id {
                        &&& res matches Ok(ResponseAction::Submit(tx))
                        &&& tx.utxos_created@.len() == 1
                        &&& tx.utxos_created@[0].user_id == old(self)@.id
                        &&& is_random_uuid(tx.utxos_created@[0].id)
                        &&& tx.utxos_spent_with_witnesses == response.utxos_with_witnesses
                        &&& final(self)@ == (UserView {
                            phase: UserPhase::AwaitingUpdate,
                            ..old(self)@
                        })
                    } else {
                        &&& res matches Ok(ResponseAction::Resend(request))
                        &&& request.user_id == old(self)@.id
                        &&& request.request_id == request_id
                        &&& request.utxos@ == seq![utxo]
                        &&& final(self)@ == old(self)@
                    }
                },
                _ => res == Err::<ResponseAction<W>, UserError>(UserError::OutOfTurn)
                    && final(self)@ == old(self)@,
            },
    {
        let new_utxo_id = random_id();
        self.on_response_with(response, new_utxo_id)
    }

    /// Takes an update while a transaction is out. An empty update is
    /// skipped; the first update that is not empty is applied and ends the
    /// round. Refused when no transaction is out, and when the update deletes
    /// what the user does not own.
    pub fn on_update(&mut self, update: UserUpdate) -> (res: Result<UpdateAction, UserError>)
        ensures
            res == Err::<UpdateAction, UserError>(UserError::OutOfTurn) <==> old(self)@.phase
                != UserPhase::AwaitingUpdate,
            res == Ok::<UpdateAction, UserError>(UpdateAction::Skipped) <==> old(self)@.phase
                == UserPhase::AwaitingUpdate && update.utxos_added@.len() == 0
                && update.utxos_deleted@.len() == 0,
            res == Ok::<UpdateAction, UserError>(UpdateAction::Applied) <==> old(self)@.phase
                == UserPhase::AwaitingUpdate && !(update.utxos_added@.len() == 0
                && update.utxos_deleted@.len() == 0) && removable(
                old(self)@.utxo_set,
                update.utxos_deleted@,
            ),
            res == Ok::<UpdateAction, UserError>(UpdateAction::Applied) ==> final(self)@ == (
            UserView {
                utxo_set: utxo_set_after_update(
                    old(self)@.utxo_set,
                    update.utxos_added@,
                    update.utxos_deleted@,
                ),
                phase: UserPhase::Idle,
                ..old(self)@
            }),
            res != Ok::<UpdateAction, UserError>(UpdateAction::Applied) ==> final(self)@ == old(self)@,
            res is Err ==> res == Err::<UpdateAction, UserError>(UserError::OutOfTurn) || res
                == Err::<UpdateAction, UserError>(UserError::UnknownUtxo),
    {
        proof {
            use_type_invariant(&*self);
        }
        match self.phase {
            UserPhase::AwaitingUpdate => {},
            _ => {
                return Err(UserError::OutOfTurn);
            },
        }
        if update.is_empty() {
            return Ok(UpdateAction::Skipped);
        }
        match self.update(update) {
            Ok(()) => {
                proof {
                    use_type_invariant(&*self);
                }
                self.phase = UserPhase::Idle;
                Ok(UpdateAction::Applied)
            },
            Err(e) => Err(e),
        }
    }
}

} // verus!
