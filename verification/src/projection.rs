//! What a simulation of an opponent's next turn found.

use vstd::prelude::*;

use crate::model::{ObjectId, PlayerId};

verus! {

/// How a creature fares until its controller's next combat.
#[derive(Debug, Clone, Copy, PartialEq, Eq, Structural)]
pub enum VelocitySample {
    /// Its power changes by `delta`.
    Changed { delta: i32 },
    /// It comes or goes.
    Other,
}

/// The sample of one creature.
#[derive(Debug, Clone, Copy, PartialEq, Eq, Structural)]
pub struct VelocityEntry {
    pub object_id: ObjectId,
    pub sample: VelocitySample,
}

/// The samples of an opponent's creatures.
#[derive(Debug)]
pub struct Projection {
    pub opponent: PlayerId,
    pub samples: Vec<VelocityEntry>,
}

/// The projection listed for an opponent.
pub open spec fn find_projection(list: Seq<Projection>, opponent: PlayerId) -> Option<Projection>
    decreases list.len(),
{
    if list.len() == 0 {
        None
    } else if list[0].opponent == opponent {
        Some(list[0])
    } else {
        find_projection(list.drop_first(), opponent)
    }
}

/// The sample listed for a creature.
pub open spec fn find_sample(list: Seq<VelocityEntry>, id: ObjectId) -> Option<VelocitySample>
    decreases list.len(),
{
    if list.len() == 0 {
        None
    } else if list[0].object_id == id {
        Some(list[0].sample)
    } else {
        find_sample(list.drop_first(), id)
    }
}

/// The projection listed for an opponent.
pub fn projection_for<'a>(list: &'a Vec<Projection>, opponent: PlayerId) -> (r: Option<
    &'a Projection,
>)
    ensures
        crate::model::deref_opt(r) == find_projection(list@, opponent),
{
    let mut i: usize = 0;
    assert(list@.skip(0) =~= list@);
    while i < list.len()
        invariant
            i <= list@.len(),
            find_projection(list@.skip(i as int), opponent) == find_projection(list@, opponent),
        decreases list@.len() - i,
    {
        assert(list@.skip(i as int).drop_first() =~= list@.skip(i + 1));
        if list[i].opponent == opponent {
            return Some(&list[i]);
        }
        i += 1;
    }
    None
}

impl Projection {
    /// The sample of a creature.
    pub fn sample_of(&self, id: ObjectId) -> (r: Option<VelocitySample>)
        ensures
            r == find_sample(self.samples@, id),
    {
        let ghost list = self.samples@;
        let mut i: usize = 0;
        assert(list.skip(0) =~= list);
        while i < self.samples.len()
            invariant
                list == self.samples@,
                i <= list.len(),
                find_sample(list.skip(i as int), id) == find_sample(list, id),
            decreases list.len() - i,
        {
            assert(list.skip(i as int).drop_first() =~= list.skip(i + 1));
            if self.samples[i].object_id == id {
                return Some(self.samples[i].sample);
            }
            i += 1;
        }
        None
    }
}

/// A projection that is found is one of the opponent that was asked for, and
/// none is found only where there is none.
pub proof fn law_projection_lookup(list: Seq<Projection>, opponent: PlayerId)
    ensures
        match find_projection(list, opponent) {
            Some(p) => list.contains(p) && p.opponent == opponent,
            None => forall|i: int|
                0 <= i < list.len() ==> (#[trigger] list[i]).opponent != opponent,
        },
    decreases list.len(),
{
    if list.len() > 0 {
        assert(list.contains(list[0]));
        if list[0].opponent != opponent {
            let rest = list.drop_first();
            law_projection_lookup(rest, opponent);
            match find_projection(rest, opponent) {
                Some(p) => {
                    let k = choose|k: int| 0 <= k < rest.len() && rest[k] == p;
                    assert(list[k + 1] == p);
                },
                None => {
                    assert forall|i: int| 0 <= i < list.len() implies (
                    #[trigger] list[i]).opponent != opponent by {
                        if i > 0 {
                            assert(rest[i - 1] == list[i]);
                        }
                    }
                },
            }
        }
    }
}

/// A sample that is found is the one listed for the creature, and none is found
/// only where none is listed.
pub proof fn law_sample_lookup(list: Seq<VelocityEntry>, id: ObjectId)
    ensures
        match find_sample(list, id) {
            Some(s) => exists|i: int|
                0 <= i < list.len() && (#[trigger] list[i]).object_id == id && list[i].sample == s,
            None => forall|i: int| 0 <= i < list.len() ==> (#[trigger] list[i]).object_id != id,
        },
    decreases list.len(),
{
    if list.len() > 0 {
        if list[0].object_id == id {
            assert(list[0].sample == list[0].sample);
        } else {
            let rest = list.drop_first();
            law_sample_lookup(rest, id);
            match find_sample(rest, id) {
                Some(s) => {
                    let k = choose|k: int|
                        0 <= k < rest.len() && (#[trigger] rest[k]).object_id == id
                            && rest[k].sample == s;
                    assert(list[k + 1] == rest[k]);
                },
                None => {
                    assert forall|i: int| 0 <= i < list.len() implies (
                    #[trigger] list[i]).object_id != id by {
                        if i > 0 {
                            assert(rest[i - 1] == list[i]);
                        }
                    }
                },
            }
        }
    }
}

/// What the lookups return is what is listed.
pub proof fn law_projections_return_the_listed(
    list: &Vec<Projection>,
    opponent: PlayerId,
    found: Option<&Projection>,
    p: &Projection,
    id: ObjectId,
    sample: Option<VelocitySample>,
)
    requires
        call_ensures(projection_for, (list, opponent), found),
        call_ensures(Projection::sample_of, (p, id), sample),
    ensures
        found matches Some(f) ==> find_projection(list@, opponent) == Some(*f),
        found is None ==> find_projection(list@, opponent) is None,
        sample == find_sample(p.samples@, id),
{
}

} // verus!
