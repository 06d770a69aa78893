//! Lands are not given up for protection from nothing.

use vstd::prelude::*;

use crate::features::DeckFeatures;
use crate::model::{GameAction, GameState, PlayerId, ProtectionPayoff};

use super::activation;
use super::activation::always;
use super::context::PolicyContext;
use super::registry;
use super::registry::{
    DecisionKind, PolicyId, PolicyReason, PolicyVerdict, Ruling, TacticalPolicy,
};
use super::strategy_helpers;
use super::strategy_helpers::count_own_lands;

verus! {

/// With fewer lands than this, giving one up is reported as such.
pub const LOW_LAND_COUNT_FLOOR: usize = 4;

/// Vetoes sacrificing a land to protect a permanent that nothing threatens.
#[derive(Debug)]
pub struct SacrificeLandProtectionPolicy;

/// Whether a protection answers a threat. Where that cannot be told before
/// targets are chosen, some choice of targets must do so.
pub open spec fn pays_off(payoff: ProtectionPayoff) -> bool {
    match payoff.exact {
        Some(answers) => answers,
        None => payoff.any,
    }
}

/// The payoff of the land-sacrifice protection that a candidate activates.
pub open spec fn protection_of(ctx: PolicyContext<'_>) -> Option<ProtectionPayoff> {
    match ctx.candidate.action {
        GameAction::ActivateAbility { .. } => match ctx.candidate.effective_ability {
            Some(a) => a.land_sacrifice_protection,
            None => None,
        },
        _ => None,
    }
}

/// What the policy says of a candidate.
pub open spec fn land_protection_ruling(ctx: PolicyContext<'_>) -> Ruling {
    let lands = strategy_helpers::land_count(*ctx.state, ctx.ai_player);
    match protection_of(ctx) {
        None => registry::neutrally(registry::because("sacrifice_land_protection_na"@)),
        Some(payoff) => if pays_off(payoff) {
            registry::neutrally(
                registry::because("sacrifice_land_protection_answerable_threat"@),
            )
        } else if lands < LOW_LAND_COUNT_FLOOR {
            registry::rejects(
                registry::because("sacrifice_land_protection_low_lands"@).fact(
                    "lands_on_battlefield"@,
                    lands as int,
                ),
            )
        } else {
            registry::rejects(registry::because("sacrifice_land_protection_no_payoff"@))
        },
    }
}

/// A land is given up for protection only where a threat is answered.
pub proof fn law_protection_needs_a_threat(ctx: PolicyContext<'_>)
    ensures
        (land_protection_ruling(ctx) is Reject) == (protection_of(ctx) matches Some(p)
            && !pays_off(p)),
{
}

impl TacticalPolicy for SacrificeLandProtectionPolicy {
    open spec fn identity(&self) -> PolicyId {
        PolicyId::SacrificeLandProtection
    }

    open spec fn kinds(&self) -> Seq<DecisionKind> {
        seq![DecisionKind::ActivateAbility]
    }

    open spec fn weight(&self, features: DeckFeatures, state: GameState) -> Option<int> {
        activation::constant()
    }

    open spec fn ruling(&self, ctx: PolicyContext<'_>) -> Ruling {
        land_protection_ruling(ctx)
    }

    fn id(&self) -> PolicyId {
        PolicyId::SacrificeLandProtection
    }

    fn decision_kinds(&self) -> Vec<DecisionKind> {
        vec![DecisionKind::ActivateAbility]
    }

    fn activation(
        &self,
        _features: &DeckFeatures,
        _state: &GameState,
        _player: PlayerId,
    ) -> Option<i128> {
        always()
    }

    fn verdict(&self, ctx: &PolicyContext<'_>) -> PolicyVerdict {
        let ability = match &ctx.candidate.action {
            GameAction::ActivateAbility { .. } => ctx.effective_activated_ability(),
            _ => None,
        };
        let protection: Option<ProtectionPayoff> = match ability {
            Some(a) => a.land_sacrifice_protection,
            None => None,
        };
        let payoff: ProtectionPayoff = match protection {
            Some(p) => p,
            None => {
                return PolicyVerdict::neutral(PolicyReason::new("sacrifice_land_protection_na"));
            },
        };
        let answers: bool = match payoff.exact {
            Some(exact) => exact,
            None => payoff.any,
        };
        if answers {
            return PolicyVerdict::neutral(
                PolicyReason::new("sacrifice_land_protection_answerable_threat"),
            );
        }
        let lands: usize = count_own_lands(ctx.state, ctx.ai_player);
        if lands < LOW_LAND_COUNT_FLOOR {
            return PolicyVerdict::reject(
                PolicyReason::new("sacrifice_land_protection_low_lands").with_fact(
                    "lands_on_battlefield",
                    lands as i64,
                ),
            );
        }
        PolicyVerdict::reject(PolicyReason::new("sacrifice_land_protection_no_payoff"))
    }
}

/// Activating a protection that costs a land is vetoed exactly where the
/// activation is known to answer nothing or, where that cannot be told yet, no
/// choice of targets would; and few lands, that is three or fewer, are what
/// the veto then names.
pub proof fn law_land_is_kept_without_a_threat(ctx: PolicyContext<'_>)
    ensures
        ({
            let ability = ctx.candidate.effective_ability;
            let idle = ctx.candidate.action is ActivateAbility && (match ability {
                Some(a) => match a.land_sacrifice_protection {
                    Some(p) => p.exact == Some(false) || (p.exact is None && !p.any),
                    None => false,
                },
                None => false,
            });
            let few = strategy_helpers::land_count(*ctx.state, ctx.ai_player) <= 3;
            let ruling = SacrificeLandProtectionPolicy.ruling(ctx);
            &&& ruling.worth() is None <==> idle
            &&& !idle ==> ruling.worth() == Some(0int)
            &&& idle && few ==> ruling.kind() == "sacrifice_land_protection_low_lands"@
            &&& idle && !few ==> ruling.kind() == "sacrifice_land_protection_no_payoff"@
        }),
{
}

} // verus!
