//! Abilities whose payoff is switched off right now are better left alone.

use vstd::prelude::*;

use crate::features::DeckFeatures;
use crate::model::{GameAction, GameState, PlayerId};

use super::activation;
use super::activation::always;
use super::context::PolicyContext;
use super::registry;
use super::registry::{
    DecisionKind, PolicyId, PolicyReason, PolicyVerdict, Ruling, TacticalPolicy,
};

verus! {

/// Discourages paying for an ability whose condition does not hold now. It is
/// no veto: paying the cost may be what makes the condition hold.
#[derive(Debug)]
pub struct ConditionGatedActivationPolicy;

/// What the policy says of a candidate.
pub open spec fn condition_gated_ruling(ctx: PolicyContext<'_>) -> Ruling {
    match ctx.candidate.action {
        GameAction::ActivateAbility { source_id, ability_index } => {
            let unmet = match ctx.state.obj(source_id) {
                Some(o) => ability_index < o.abilities@.len()
                    && o.abilities@[ability_index as int].cost is Some
                    && o.abilities@[ability_index as int].condition_currently_met == Some(false),
                None => false,
            };
            if unmet {
                registry::scores(-2_500_000, registry::because("condition_gated_payoff_unmet"@))
            } else {
                registry::neutrally(registry::because("condition_gated_ok"@))
            }
        },
        _ => registry::neutrally(registry::because("condition_gated_na"@)),
    }
}

/// An unmet condition is discouraged, never vetoed, and nothing else is even
/// discouraged.
pub proof fn law_unmet_condition_is_no_veto(ctx: PolicyContext<'_>)
    ensures
        condition_gated_ruling(ctx) matches Ruling::Score { delta, .. } && (delta == 0 || delta
            == -2_500_000),
        (condition_gated_ruling(ctx) matches Ruling::Score { delta, .. } && delta != 0) ==> (
        ctx.candidate.action is ActivateAbility),
{
}

impl TacticalPolicy for ConditionGatedActivationPolicy {
    open spec fn identity(&self) -> PolicyId {
        PolicyId::ConditionGatedActivation
    }

    open spec fn kinds(&self) -> Seq<DecisionKind> {
        seq![DecisionKind::ActivateAbility]
    }

    open spec fn weight(&self, features: DeckFeatures, state: GameState) -> Option<int> {
        activation::constant()
    }

    open spec fn ruling(&self, ctx: PolicyContext<'_>) -> Ruling {
        condition_gated_ruling(ctx)
    }

    fn id(&self) -> PolicyId {
        PolicyId::ConditionGatedActivation
    }

    fn decision_kinds(&self) -> Vec<DecisionKind> {
        vec![DecisionKind::ActivateAbility]
    }

    fn activation(
        &self,
        _features: &DeckFeatures,
        _state: &GameState,
        _player: PlayerId,
    ) -> Option<i128> {
        always()
    }

    fn verdict(&self, ctx: &PolicyContext<'_>) -> PolicyVerdict {
        let (source_id, ability_index) = match &ctx.candidate.action {
            GameAction::ActivateAbility { source_id, ability_index } => (
                *source_id,
                *ability_index,
            ),
            _ => return PolicyVerdict::neutral(PolicyReason::new("condition_gated_na")),
        };
        if let Some(obj) = ctx.state.object(source_id) {
            if ability_index < obj.abilities.len() {
                let def = &obj.abilities[ability_index];
                let has_cost: bool = def.cost.is_some();
                if has_cost {
                    if let Some(met) = def.condition_currently_met {
                        if !met {
                            return PolicyVerdict::Score {
                                delta: -2_500_000,
                                reason: PolicyReason::new("condition_gated_payoff_unmet"),
                            };
                        }
                    }
                }
            }
        }
        PolicyVerdict::neutral(PolicyReason::new("condition_gated_ok"))
    }
}

/// Activating an ability is discouraged exactly where it has a cost and a
/// condition that is known not to hold now.
pub proof fn law_discouraged_exactly_where_unmet(ctx: PolicyContext<'_>)
    ensures
        ConditionGatedActivationPolicy.ruling(ctx).discourages() <==> (match ctx.candidate.action {
            GameAction::ActivateAbility { source_id, ability_index } => match ctx.state.obj(
                source_id,
            ) {
                Some(o) => {
                    let i = ability_index as int;
                    i < o.abilities@.len() && o.abilities@[i].cost is Some
                        && o.abilities@[i].condition_currently_met == Some(false)
                },
                None => false,
            },
            _ => false,
        }),
{
}

} // verus!
