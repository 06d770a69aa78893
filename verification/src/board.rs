//! Counting and searching the objects of a position.

use vstd::prelude::*;

use crate::model::{GameObject, GameState, ObjectId};
use crate::seqs;

verus! {

/// The ids of objects that satisfy `q`.
pub open spec fn that(state: GameState, q: spec_fn(GameObject) -> bool) -> spec_fn(
    ObjectId,
) -> bool {
    |id: ObjectId|
        match state.obj(id) {
            Some(o) => q(o),
            None => false,
        }
}

/// How many of `ids` are objects that satisfy `q`.
pub open spec fn count(state: GameState, ids: Seq<ObjectId>, q: spec_fn(GameObject) -> bool) -> nat {
    seqs::count(ids, that(state, q))
}

/// Whether one of `ids` is an object that satisfies `q`.
pub open spec fn any(state: GameState, ids: Seq<ObjectId>, q: spec_fn(GameObject) -> bool) -> bool {
    seqs::any(ids, that(state, q))
}

/// How many of `ids` are objects that `p` accepts. The predicate `q` is what
/// `p` decides.
pub(crate) fn count_where(
    state: &GameState,
    ids: &Vec<ObjectId>,
    p: impl Fn(&GameObject) -> bool,
    Ghost(q): Ghost<spec_fn(GameObject) -> bool>,
) -> (r: usize)
    requires
        forall|o: &GameObject| call_requires(p, (o,)),
        forall|o: &GameObject, b: bool| call_ensures(p, (o,), b) ==> b == q(*o),
    ensures
        r == count(*state, ids@, q),
        r <= ids@.len(),
{
    let mut n: usize = 0;
    let mut i: usize = 0;
    while i < ids.len()
        invariant
            forall|o: &GameObject| call_requires(p, (o,)),
            forall|o: &GameObject, b: bool| call_ensures(p, (o,), b) ==> b == q(*o),
            i <= ids@.len(),
            n <= i,
            n == seqs::count(ids@.take(i as int), that(*state, q)),
        decreases ids@.len() - i,
    {
        proof {
            seqs::lemma_count_step(ids@, i as int, that(*state, q));
        }
        if let Some(o) = state.object(ids[i]) {
            if p(o) {
                n += 1;
            }
        }
        i += 1;
    }
    assert(ids@.take(ids@.len() as int) =~= ids@);
    n
}

/// Whether one of `ids` is an object that `p` accepts. The predicate `q` is
/// what `p` decides.
pub(crate) fn any_where(
    state: &GameState,
    ids: &Vec<ObjectId>,
    p: impl Fn(&GameObject) -> bool,
    Ghost(q): Ghost<spec_fn(GameObject) -> bool>,
) -> (r: bool)
    requires
        forall|o: &GameObject| call_requires(p, (o,)),
        forall|o: &GameObject, b: bool| call_ensures(p, (o,), b) ==> b == q(*o),
    ensures
        r == any(*state, ids@, q),
{
    let mut i: usize = 0;
    while i < ids.len()
        invariant
            forall|o: &GameObject| call_requires(p, (o,)),
            forall|o: &GameObject, b: bool| call_ensures(p, (o,), b) ==> b == q(*o),
            i <= ids@.len(),
            forall|j: int| 0 <= j < i ==> !that(*state, q)(#[trigger] ids@[j]),
        decreases ids@.len() - i,
    {
        if let Some(o) = state.object(ids[i]) {
            if p(o) {
                assert(that(*state, q)(ids@[i as int]));
                return true;
            }
        }
        i += 1;
    }
    false
}

/// One more id adds to a count exactly where it is that of an object which
/// satisfies the predicate; of no ids there are none.
pub proof fn law_count_takes_each_object_once(
    state: GameState,
    ids: Seq<ObjectId>,
    id: ObjectId,
    q: spec_fn(GameObject) -> bool,
)
    ensures
        count(state, Seq::<ObjectId>::empty(), q) == 0,
        state.obj(id) matches Some(o) ==> count(state, ids.push(id), q) == count(state, ids, q) + (
        if q(o) {
            1nat
        } else {
            0nat
        }),
        state.obj(id) is None ==> count(state, ids.push(id), q) == count(state, ids, q),
{
    seqs::lemma_count_push(ids, id, that(state, q));
}

/// Some object satisfies a predicate exactly where their count is not zero,
/// and exactly where one of the ids is that of such an object.
pub proof fn law_any_is_a_count_above_zero(
    state: GameState,
    ids: Seq<ObjectId>,
    q: spec_fn(GameObject) -> bool,
)
    ensures
        any(state, ids, q) <==> count(state, ids, q) > 0,
        any(state, ids, q) <==> exists|i: int|
            0 <= i < ids.len() && (match state.obj(#[trigger] ids[i]) {
                Some(o) => q(o),
                None => false,
            }),
{
    seqs::lemma_count_any(ids, that(state, q));
    if any(state, ids, q) {
        let i = choose|i: int| 0 <= i < ids.len() && that(state, q)(#[trigger] ids[i]);
        assert(match state.obj(ids[i]) {
            Some(o) => q(o),
            None => false,
        });
    }
    if exists|i: int|
        0 <= i < ids.len() && (match state.obj(#[trigger] ids[i]) {
            Some(o) => q(o),
            None => false,
        }) {
        let i = choose|i: int|
            0 <= i < ids.len() && (match state.obj(#[trigger] ids[i]) {
                Some(o) => q(o),
                None => false,
            });
        assert(that(state, q)(ids[i]));
    }
}

} // verus!
