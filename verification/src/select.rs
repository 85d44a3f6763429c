//! Predicates on outputs, and the selections of an output list that the
//! participants compute with them.
use vstd::prelude::*;
use crate::state::Utxo;

verus! {

/// The outputs owned by user `user_id`.
pub open spec fn owned_by(user_id: usize) -> spec_fn(Utxo) -> bool {
    |u: Utxo| u.user_id == user_id
}

/// The outputs owned by one of the users `user_ids`.
pub open spec fn tracked_by(user_ids: Seq<usize>) -> spec_fn(Utxo) -> bool {
    |u: Utxo| user_ids.contains(u.user_id)
}

/// The outputs owned by none of the users `user_ids`.
pub open spec fn untracked_by(user_ids: Seq<usize>) -> spec_fn(Utxo) -> bool {
    |u: Utxo| !user_ids.contains(u.user_id)
}

/// The outputs that none of `spent` is equal to.
pub open spec fn not_among(spent: Seq<Utxo>) -> spec_fn(Utxo) -> bool {
    |u: Utxo| !spent.contains(u)
}

/// An output is in a filtered list exactly if it is in the list and passes.
pub proof fn lemma_filter_contains(s: Seq<Utxo>, p: spec_fn(Utxo) -> bool, u: Utxo)
    ensures
        s.filter(p).contains(u) <==> s.contains(u) && p(u),
    decreases s.len(),
{
    reveal(Seq::filter);
    if s.len() > 0 {
        let front = s.drop_last();
        lemma_filter_contains(front, p, u);
        if s.contains(u) && p(u) {
            let i = choose|i: int| 0 <= i < s.len() && s[i] == u;
            if i < s.len() - 1 {
                assert(front[i] == u);
                let j = choose|j: int| 0 <= j < front.filter(p).len() && front.filter(p)[j] == u;
                assert(s.filter(p)[j] == u);
            } else {
                assert(s.filter(p).last() == u);
            }
        }
        if s.filter(p).contains(u) {
            let j = choose|j: int| 0 <= j < s.filter(p).len() && s.filter(p)[j] == u;
            if j < front.filter(p).len() {
                assert(front.filter(p)[j] == u);
                let i = choose|i: int| 0 <= i < front.len() && front[i] == u;
                assert(s[i] == u);
            } else {
                assert(s[s.len() - 1] == u);
            }
        }
    }
}

/// Filtering a list without repetitions leaves no repetitions.
pub proof fn lemma_filter_no_duplicates(s: Seq<Utxo>, p: spec_fn(Utxo) -> bool)
    requires
        s.no_duplicates(),
    ensures
        s.filter(p).no_duplicates(),
    decreases s.len(),
{
    reveal(Seq::filter);
    if s.len() > 0 {
        let front = s.drop_last();
        lemma_filter_no_duplicates(front, p);
        lemma_filter_contains(front, p, s.last());
        if front.contains(s.last()) {
            let i = choose|i: int| 0 <= i < front.len() && front[i] == s.last();
            assert(s[i] == s[s.len() - 1]);
        }
    }
}

/// The place of `id` in `ids`, if it occurs there.
pub(crate) fn position_of(ids: &Vec<usize>, id: usize) -> (pos: Option<usize>)
    ensures
        pos matches Some(k) ==> k < ids@.len() && ids@[k as int] == id,
        pos is None <==> !ids@.contains(id),
{
    let mut k: usize = 0;
    while k < ids.len()
        invariant
            k <= ids.len(),
            forall|n: int| 0 <= n < k ==> ids@[n] != id,
        decreases ids.len() - k,
    {
        if ids[k] == id {
            return Some(k);
        }
        k += 1;
    }
    None
}

/// Whether `utxo` occurs in `list`.
pub(crate) fn contains_utxo(list: &Vec<Utxo>, utxo: Utxo) -> (found: bool)
    ensures
        found == list@.contains(utxo),
{
    let mut k: usize = 0;
    while k < list.len()
        invariant
            k <= list.len(),
            forall|n: int| 0 <= n < k ==> list@[n] != utxo,
        decreases list.len() - k,
    {
        if list[k] == utxo {
            return true;
        }
        k += 1;
    }
    false
}

/// Whether the output at place `i` of `list` occurs before that place too.
pub(crate) fn occurs_before(list: &Vec<Utxo>, i: usize) -> (found: bool)
    requires
        i < list@.len(),
    ensures
        found == list@.take(i as int).contains(list@[i as int]),
{
    let mut k: usize = 0;
    while k < i
        invariant
            k <= i,
            i < list@.len(),
            forall|n: int| 0 <= n < k ==> list@[n] != list@[i as int],
        decreases i - k,
    {
        if list[k] == list[i] {
            assert(list@.take(i as int)[k as int] == list@[i as int]);
            return true;
        }
        k += 1;
    }
    assert forall|n: int| 0 <= n < list@.take(i as int).len() implies list@.take(i as int)[n]
        != list@[i as int] by {
        assert(list@.take(i as int)[n] == list@[n]);
    }
    false
}

/// The outputs of `list` that do not occur in `gone`, in order.
pub(crate) fn remove_all(list: &Vec<Utxo>, gone: &Vec<Utxo>) -> (kept: Vec<Utxo>)
    ensures
        kept@ == list@.filter(not_among(gone@)),
{
    let mut kept: Vec<Utxo> = Vec::new();
    let mut k: usize = 0;
    while k < list.len()
        invariant
            k <= list.len(),
            kept@ == list@.take(k as int).filter(not_among(gone@)),
        decreases list.len() - k,
    {
        proof {
            list@.take(k as int).lemma_filter_push(list@[k as int], not_among(gone@));
            assert(list@.take(k as int).push(list@[k as int]) == list@.take(k + 1));
        }
        if !contains_utxo(gone, list[k]) {
            kept.push(list[k]);
        }
        k += 1;
    }
    assert(list@.take(k as int) == list@);
    kept
}

/// The outputs of `list` owned by `user_id`, in order.
pub(crate) fn select_owned(list: &Vec<Utxo>, user_id: usize) -> (owned: Vec<Utxo>)
    ensures
        owned@ == list@.filter(owned_by(user_id)),
{
    let mut owned: Vec<Utxo> = Vec::new();
    let mut k: usize = 0;
    while k < list.len()
        invariant
            k <= list.len(),
            owned@ == list@.take(k as int).filter(owned_by(user_id)),
        decreases list.len() - k,
    {
        proof {
            list@.take(k as int).lemma_filter_push(list@[k as int], owned_by(user_id));
            assert(list@.take(k as int).push(list@[k as int]) == list@.take(k + 1));
        }
        if list[k].user_id == user_id {
            owned.push(list[k]);
        }
        k += 1;
    }
    assert(list@.take(k as int) == list@);
    owned
}

/// Splits `list` into the outputs owned by one of `user_ids` and the rest,
/// each in order.
pub(crate) fn split_tracked(list: &Vec<Utxo>, user_ids: &Vec<usize>) -> (parts: (
    Vec<Utxo>,
    Vec<Utxo>,
))
    ensures
        parts.0@ == list@.filter(tracked_by(user_ids@)),
        parts.1@ == list@.filter(untracked_by(user_ids@)),
{
    let mut served: Vec<Utxo> = Vec::new();
    let mut foreign: Vec<Utxo> = Vec::new();
    let mut k: usize = 0;
    while k < list.len()
        invariant
            k <= list.len(),
            served@ == list@.take(k as int).filter(tracked_by(user_ids@)),
            foreign@ == list@.take(k as int).filter(untracked_by(user_ids@)),
        decreases list.len() - k,
    {
        proof {
            list@.take(k as int).lemma_filter_push(list@[k as int], tracked_by(user_ids@));
            list@.take(k as int).lemma_filter_push(list@[k as int], untracked_by(user_ids@));
            assert(list@.take(k as int).push(list@[k as int]) == list@.take(k + 1));
        }
        if position_of(user_ids, list[k].user_id).is_some() {
            served.push(list[k]);
        } else {
            foreign.push(list[k]);
        }
        k += 1;
    }
    assert(list@.take(k as int) == list@);
    (served, foreign)
}

} // verus!
