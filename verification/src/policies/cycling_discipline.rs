//! Patience with cycling.

use vstd::prelude::*;

use crate::board;
use crate::features;
use crate::features::{DeckFeatures, PlanSnapshot};
use crate::model::{
    contains_object, AbilityTag, CoreType, GameAction, GameObject, GameState, ObjectId, PlayerId,
    Zone,
};
use crate::seqs;

use super::activation;
use super::activation::always;
use super::context::PolicyContext;
use super::registry;
use super::registry::{
    DecisionKind, PolicyId, PolicyReason, PolicyVerdict, Ruling, TacticalPolicy,
};
use super::strategy_helpers;
use super::strategy_helpers::count_own_lands;

verus! {

/// Takes the automatic edge from cycling a card, and keeps the AI from cycling
/// away the only land for its next planned land drop.
#[derive(Debug)]
pub struct CyclingDisciplinePolicy;

/// The lands.
pub open spec fn land() -> spec_fn(GameObject) -> bool {
    |o: GameObject| o.has_type(CoreType::Land)
}

/// The next number of lands that a plan asks for, beyond those on the
/// battlefield.
pub open spec fn next_target(plan: PlanSnapshot, lands: nat) -> Option<int> {
    seqs::minimum(plan.expected_lands@, |t: u8| t > lands, |t: u8| t as int)
}

/// Whether an object is the only land in the AI's hand, and the plan asks for
/// one more.
pub open spec fn sole_needed_land(ctx: PolicyContext<'_>, id: ObjectId) -> bool {
    let hand = ctx.state.seat(ctx.ai_player).hand@;
    match ctx.state.obj(id) {
        None => false,
        Some(source) => {
            &&& source.zone == Zone::Hand
            &&& hand.contains(id)
            &&& source.has_type(CoreType::Land)
            &&& board::count(*ctx.state, hand, land()) == 1
            &&& match features::find_plan(ctx.context.session.plan@, ctx.ai_player) {
                Some(plan) => next_target(
                    plan,
                    strategy_helpers::land_count(*ctx.state, ctx.ai_player),
                ) is Some,
                None => false,
            }
        },
    }
}

/// What the policy says of a candidate.
pub open spec fn cycling_ruling(ctx: PolicyContext<'_>) -> Ruling {
    let penalties = ctx.config.policy_penalties;
    let cycles = match ctx.candidate.effective_ability {
        Some(a) => a.ability_tag == Some(AbilityTag::Cycling),
        None => false,
    };
    let needed = match ctx.candidate.action {
        GameAction::ActivateAbility { source_id, .. } => sole_needed_land(ctx, source_id),
        _ => false,
    };
    if !cycles {
        registry::neutrally(registry::because("cycling_discipline_na"@))
    } else if needed {
        registry::banded(
            penalties.cycling_needed_land_penalty as int,
            ctx.config.bands.strong_max as int,
            registry::because("cycling_discipline_needed_land"@),
        )
    } else {
        registry::banded(
            penalties.cycling_patience_penalty as int,
            ctx.config.bands.preference_max as int,
            registry::because("cycling_discipline_patience"@),
        )
    }
}

/// A planned number of lands is one that the plan names, exceeds what is on
/// the battlefield, and no smaller one does.
pub proof fn law_planned_target_is_the_next_one(plan: PlanSnapshot, lands: nat, target: int)
    requires
        next_target(plan, lands) == Some(target),
    ensures
        target > lands,
        exists|i: int| 0 <= i < 15 && #[trigger] plan.expected_lands@[i] == target,
        forall|i: int|
            0 <= i < 15 && (#[trigger] plan.expected_lands@[i]) > lands ==> target
                <= plan.expected_lands@[i],
{
    let s = plan.expected_lands@;
    let p = |t: u8| t > lands;
    let f = |t: u8| t as int;
    seqs::lemma_minimum(s, p, f);
    let q = |t: u8| p(t) && f(t) == target;
    let i = choose|i: int| 0 <= i < s.len() && q(#[trigger] s[i]);
    assert(q(s[i]));
    assert forall|j: int| 0 <= j < 15 && (#[trigger] s[j]) > lands implies target <= s[j] by {
        assert(p(s[j]));
    }
}

/// Cycling is discouraged, never vetoed: a real payoff can still justify it.
pub proof fn law_cycling_is_never_vetoed(ctx: PolicyContext<'_>)
    ensures
        !(cycling_ruling(ctx) is Reject),
{
}

/// The next number of lands that a plan asks for, beyond those on the
/// battlefield.
pub fn next_planned_land_target(plan: &PlanSnapshot, controlled_lands: usize) -> (r: Option<usize>)
    ensures
        next_target(*plan, controlled_lands as nat) == (match r {
            Some(t) => Some(t as int),
            None => None,
        }),
{
    let ghost p = |t: u8| t > controlled_lands as nat;
    let ghost f = |t: u8| t as int;
    let ghost s = plan.expected_lands@;
    let mut best: Option<usize> = None;
    let mut i: usize = 0;
    while i < 15
        invariant
            p == (|t: u8| t > controlled_lands as nat),
            f == (|t: u8| t as int),
            s == plan.expected_lands@,
            i <= 15,
            seqs::minimum(s.take(i as int), p, f) == (match best {
                Some(t) => Some(t as int),
                None => None,
            }),
        decreases 15 - i,
    {
        proof {
            seqs::lemma_minimum_step(s, i as int, p, f);
        }
        let target: usize = plan.expected_lands[i] as usize;
        if target > controlled_lands {
            best = match best {
                Some(b) => if target < b {
                    Some(target)
                } else {
                    Some(b)
                },
                None => Some(target),
            };
        }
        i += 1;
    }
    assert(s.take(15) =~= s);
    best
}

/// Whether the candidate gives up the only land for the next land drop.
fn source_is_sole_needed_land(ctx: &PolicyContext<'_>) -> (r: bool)
    requires
        ctx.valid(),
    ensures
        r == match ctx.candidate.action {
            GameAction::ActivateAbility { source_id, .. } => sole_needed_land(*ctx, source_id),
            _ => false,
        },
{
    let source_id: ObjectId = match &ctx.candidate.action {
        GameAction::ActivateAbility { source_id, .. } => *source_id,
        _ => return false,
    };
    let player = ctx.ai_player;
    let hand = &ctx.state.player(player).hand;
    let source = match ctx.state.object(source_id) {
        Some(o) => o,
        None => return false,
    };
    if source.zone != Zone::Hand || !contains_object(hand, source_id) || !source.is_type(
        CoreType::Land,
    ) {
        return false;
    }
    let is_land = |o: &GameObject| -> (b: bool)
        ensures
            b == land()(*o),
        { o.is_type(CoreType::Land) };
    if board::count_where(ctx.state, hand, is_land, Ghost(land())) != 1 {
        return false;
    }
    let controlled_lands: usize = count_own_lands(ctx.state, player);
    match ctx.context.session.plan_of(player) {
        Some(plan) => next_planned_land_target(&plan, controlled_lands).is_some(),
        None => false,
    }
}

impl TacticalPolicy for CyclingDisciplinePolicy {
    open spec fn identity(&self) -> PolicyId {
        PolicyId::CyclingDiscipline
    }

    open spec fn kinds(&self) -> Seq<DecisionKind> {
        seq![DecisionKind::ActivateAbility]
    }

    open spec fn weight(&self, features: DeckFeatures, state: GameState) -> Option<int> {
        activation::constant()
    }

    open spec fn ruling(&self, ctx: PolicyContext<'_>) -> Ruling {
        cycling_ruling(ctx)
    }

    fn id(&self) -> PolicyId {
        PolicyId::CyclingDiscipline
    }

    fn decision_kinds(&self) -> Vec<DecisionKind> {
        vec![DecisionKind::ActivateAbility]
    }

    fn activation(
        &self,
        _features: &DeckFeatures,
        _state: &GameState,
        _player: PlayerId,
    ) -> Option<i128> {
        always()
    }

    fn verdict(&self, ctx: &PolicyContext<'_>) -> PolicyVerdict {
        let cycles: bool = match ctx.effective_activated_ability() {
            Some(ability) => match ability.ability_tag {
                Some(tag) => tag == AbilityTag::Cycling,
                None => false,
            },
            None => false,
        };
        if !cycles {
            return PolicyVerdict::neutral(PolicyReason::new("cycling_discipline_na"));
        }
        if source_is_sole_needed_land(ctx) {
            PolicyVerdict::strong(
                ctx.penalties().cycling_needed_land_penalty as i128,
                &ctx.config.bands,
                PolicyReason::new("cycling_discipline_needed_land"),
            )
        } else {
            PolicyVerdict::preference(
                ctx.penalties().cycling_patience_penalty as i128,
                &ctx.config.bands,
                PolicyReason::new("cycling_discipline_patience"),
            )
        }
    }
}

/// Cycling draws the strong penalty exactly where it would give up the only
/// land in hand while the plan still asks for one, the mild penalty otherwise;
/// nothing but cycling is judged.
pub proof fn law_cycling_penalties(ctx: PolicyContext<'_>)
    ensures
        ({
            let cycles = match ctx.candidate.effective_ability {
                Some(a) => match a.ability_tag {
                    Some(tag) => tag is Cycling,
                    None => false,
                },
                None => false,
            };
            let needed = match ctx.candidate.action {
                GameAction::ActivateAbility { source_id, .. } => sole_needed_land(ctx, source_id),
                _ => false,
            };
            let p = ctx.config.policy_penalties;
            let (strong, mild) = (
                ctx.config.bands.strong_max as int,
                ctx.config.bands.preference_max as int,
            );
            let worth = CyclingDisciplinePolicy.ruling(ctx).worth();
            &&& !cycles ==> worth == Some(0int)
            &&& cycles && needed && -strong <= p.cycling_needed_land_penalty <= strong ==> worth
                == Some(p.cycling_needed_land_penalty as int)
            &&& cycles && needed && p.cycling_needed_land_penalty < -strong ==> worth == Some(
                -strong,
            )
            &&& cycles && !needed && -mild <= p.cycling_patience_penalty <= mild ==> worth == Some(
                p.cycling_patience_penalty as int,
            )
            &&& cycles && !needed && p.cycling_patience_penalty < -mild ==> worth == Some(-mild)
        }),
{
}

/// A land is the only one that is needed exactly where it is the AI's only
/// land in hand and the plan names more lands than are on the battlefield.
pub proof fn law_needed_land_is_the_only_one(ctx: PolicyContext<'_>, id: ObjectId)
    ensures
        sole_needed_land(ctx, id) ==> {
            &&& ctx.state.players[ctx.ai_player.0 as int].hand@.contains(id)
            &&& ctx.state.obj(id) matches Some(o) && o.zone is Hand && o.core_types@.contains(
                CoreType::Land,
            )
            &&& forall|i: int, j: int|
                0 <= i < j < ctx.state.players[ctx.ai_player.0 as int].hand@.len() ==> !(is_land(
                    ctx,
                    #[trigger] ctx.state.players[ctx.ai_player.0 as int].hand@[i],
                ) && is_land(ctx, #[trigger] ctx.state.players[ctx.ai_player.0 as int].hand@[j]))
            &&& wants_another_land(ctx)
        },
        !wants_another_land(ctx) ==> !sole_needed_land(ctx, id),
        ({
            let hand = ctx.state.players[ctx.ai_player.0 as int].hand@;
            let lands = board::count(
                *ctx.state,
                hand,
                |o: GameObject| o.core_types@.contains(CoreType::Land),
            );
            ctx.state.obj(id) matches Some(o) ==> (o.zone is Hand && hand.contains(id) && is_land(
                ctx,
                id,
            ) && lands == 1 && wants_another_land(ctx) ==> sole_needed_land(ctx, id))
        }),
{
    let hand = ctx.state.players[ctx.ai_player.0 as int].hand@;
    assert(land() =~= (|o: GameObject| o.core_types@.contains(CoreType::Land)));
    let lands = strategy_helpers::land_count(*ctx.state, ctx.ai_player);
    if let Some(plan) = features::find_plan(ctx.context.session.plan@, ctx.ai_player) {
        let s = plan.expected_lands@;
        let p = |t: u8| t > lands;
        seqs::lemma_minimum(s, p, |t: u8| t as int);
        if seqs::any(s, p) {
            let i = choose|i: int| 0 <= i < s.len() && p(#[trigger] s[i]);
            assert(s[i] > lands);
        }
        if exists|i: int| 0 <= i < 15 && #[trigger] s[i] > lands {
            let i = choose|i: int| 0 <= i < 15 && #[trigger] s[i] > lands;
            assert(p(s[i]));
        }
    }
    if sole_needed_land(ctx, id) {
        assert forall|i: int, j: int| 0 <= i < j < hand.len() implies !(is_land(
            ctx,
            #[trigger] hand[i],
        ) && is_land(ctx, #[trigger] hand[j])) by {
            if is_land(ctx, hand[i]) && is_land(ctx, hand[j]) {
                lemma_two_counted(hand, board::that(*ctx.state, land()), i, j);
            }
        }
    }
}

/// Whether an object is a land.
pub open spec fn is_land(ctx: PolicyContext<'_>, id: ObjectId) -> bool {
    match ctx.state.obj(id) {
        Some(o) => o.core_types@.contains(CoreType::Land),
        None => false,
    }
}

/// Whether the plan names, for some turn, more lands than the AI has on the
/// battlefield.
pub open spec fn wants_another_land(ctx: PolicyContext<'_>) -> bool {
    match features::find_plan(ctx.context.session.plan@, ctx.ai_player) {
        Some(plan) => exists|i: int|
            0 <= i < 15 && #[trigger] plan.expected_lands@[i] > strategy_helpers::land_count(
                *ctx.state,
                ctx.ai_player,
            ),
        None => false,
    }
}

/// Two places that satisfy a predicate count twice.
proof fn lemma_two_counted(s: Seq<ObjectId>, p: spec_fn(ObjectId) -> bool, i: int, j: int)
    requires
        0 <= i < j < s.len(),
        p(s[i]),
        p(s[j]),
    ensures
        seqs::count(s, p) >= 2,
    decreases s.len(),
{
    let d = s.drop_last();
    if j < d.len() {
        assert(d[i] == s[i] && d[j] == s[j]);
        lemma_two_counted(d, p, i, j);
    } else {
        assert(d[i] == s[i]);
        seqs::lemma_count_any(d, p);
        assert(seqs::any(d, p));
    }
}

/// What `next_planned_land_target` returns is the least planned number of lands
/// above those controlled, and nothing exactly where no plan goes beyond them.
pub proof fn law_next_planned_target_is_returned(
    plan: &PlanSnapshot,
    lands: usize,
    r: Option<usize>,
)
    requires
        call_ensures(next_planned_land_target, (plan, lands), r),
    ensures
        match r {
            Some(t) => t > lands && (exists|i: int|
                0 <= i < 15 && #[trigger] plan.expected_lands@[i] == t) && forall|i: int|
                0 <= i < 15 && (#[trigger] plan.expected_lands@[i]) > lands ==> t
                    <= plan.expected_lands@[i],
            None => forall|i: int|
                0 <= i < 15 ==> (#[trigger] plan.expected_lands@[i]) <= lands,
        },
{
    match r {
        Some(t) => law_planned_target_is_the_next_one(*plan, lands as nat, t as int),
        None => {
            let s = plan.expected_lands@;
            let p = |t: u8| t > lands as nat;
            seqs::lemma_minimum(s, p, |t: u8| t as int);
            assert forall|i: int| 0 <= i < 15 implies (#[trigger] s[i]) <= lands by {
                if s[i] > lands {
                    assert(p(s[i]));
                }
            }
        },
    }
}

} // verus!
