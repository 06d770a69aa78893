//! Whether to pay for attacking or blocking.

use vstd::prelude::*;

use crate::board;
use crate::features::DeckFeatures;
use crate::model;
use crate::model::{
    stat_or_zero, AbilityDefinition, AbilityKind, CombatTaxContext, CombatTaxPending, CoreType,
    EffectKind, GameAction, GameObject, GameState, ObjectId, PlayerId, WaitingFor,
};
use crate::score;
use crate::score::{clamp_score, div_floor, mul_scaled, UNIT};
use crate::seqs;

use super::activation;
use super::activation::always;
use super::context::PolicyContext;
use super::registry;
use super::registry::{
    DecisionKind, PolicyId, PolicyReason, PolicyVerdict, Ruling, TacticalPolicy,
};

verus! {

/// Pays a combat tax where the creatures it lets through are worth it.
#[derive(Debug)]
pub struct CombatTaxPaymentPolicy;

/// The power of an object.
pub open spec fn power_of(state: GameState) -> spec_fn(ObjectId) -> int {
    |id: ObjectId|
        match state.obj(id) {
            Some(o) => model::stat(o.power),
            None => 0,
        }
}

/// Whether an ability is activated for mana.
pub open spec fn activates_for_mana() -> spec_fn(AbilityDefinition) -> bool {
    |a: AbilityDefinition| a.kind == AbilityKind::Activated && a.effect.kind is Mana
}

/// The untapped mana sources of a player.
pub open spec fn untapped_source(player: PlayerId) -> spec_fn(GameObject) -> bool {
    |o: GameObject|
        o.controller == player && !o.tapped && (o.has_type(CoreType::Land) || seqs::any(
            o.abilities@,
            activates_for_mana(),
        ))
}

/// A commitment between nothing and one.
pub open spec fn share(commitment: i64) -> int {
    score::clamped(commitment as int, 0, UNIT as int)
}

/// How readily a deck pays: one that attacks pays more readily to attack, one
/// that answers less, and less so for its blockers. A seat that was not
/// analysed counts as neither.
pub open spec fn readiness(features: Option<DeckFeatures>, context: CombatTaxContext) -> int {
    let (aggro, control) = match features {
        Some(f) => (share(f.aggro_pressure.commitment), share(f.control.commitment)),
        None => (0, 0),
    };
    match context {
        CombatTaxContext::Attacking => UNIT + score::scaled(400_000, aggro) - score::scaled(
            400_000,
            control,
        ),
        CombatTaxContext::Blocking => UNIT - score::scaled(200_000, control),
    }
}

/// How much better it is to pay than not to: what gets through against what it
/// costs.
pub open spec fn balance(damage: int, tax: int, readiness: int) -> int {
    if damage > tax {
        score::scaled(350_000, readiness)
    } else if damage < tax {
        (-450_000 * 1_000_000) / score::greater(readiness, 10_000)
    } else {
        0
    }
}

/// What the policy says of paying or not paying a tax.
pub open spec fn tax_ruling(
    ctx: PolicyContext<'_>,
    accept: bool,
    context: CombatTaxContext,
    tax: int,
    taxed: Seq<ObjectId>,
    declared: nat,
) -> Ruling {
    let damage = seqs::sum(taxed, power_of(*ctx.state));
    let base = balance(damage, tax, readiness(ctx.context.session.deck(ctx.ai_player), context));
    let available = board::count(
        *ctx.state,
        ctx.state.battlefield@,
        untapped_source(ctx.ai_player),
    );
    let taps_out = if 0 < available && available <= tax {
        -200_000
    } else {
        0int
    };
    let collapses = if declared > 0 && 4 * taxed.len() >= 3 * declared && damage > 0 {
        150_000
    } else {
        0int
    };
    let keeps_blockers = if context == CombatTaxContext::Blocking {
        250_000
    } else {
        0int
    };
    let reason = |kind: Seq<char>|
        registry::because(kind).fact("tax_mv"@, tax).fact("expected_damage"@, damage).fact(
            "taxed"@,
            taxed.len() as int,
        ).fact("declared"@, declared as int);
    if accept {
        registry::scores(
            base + taps_out + collapses + keeps_blockers,
            reason("combat_tax_accept"@),
        )
    } else {
        registry::scores(-base, reason("combat_tax_decline"@))
    }
}

/// What the policy says of a candidate.
pub open spec fn combat_tax_ruling(ctx: PolicyContext<'_>) -> Ruling {
    match (ctx.candidate.action, ctx.state.waiting_for) {
        (
            GameAction::PayCombatTax { accept },
            WaitingFor::CombatTaxPayment { context, total_mana_value, per_creature, pending },
        ) => tax_ruling(
            ctx,
            accept,
            context,
            total_mana_value as int,
            per_creature@,
            model::declared_size(pending),
        ),
        _ => registry::neutrally(registry::because("combat_tax_na"@)),
    }
}

/// However a deck is built, it is between six tenths and fourteen tenths as
/// ready to pay as one that is built for nothing in particular.
pub proof fn law_readiness_is_bounded(features: Option<DeckFeatures>, context: CombatTaxContext)
    ensures
        600_000 <= readiness(features, context) <= 1_400_000,
{
}

/// A tax that gets more damage through than it costs is worth paying, and one
/// that costs more is not.
pub proof fn law_balance_favors_damage(
    features: Option<DeckFeatures>,
    context: CombatTaxContext,
    damage: int,
    tax: int,
)
    ensures
        damage > tax ==> balance(damage, tax, readiness(features, context)) > 0,
        damage < tax ==> balance(damage, tax, readiness(features, context)) < 0,
        damage == tax ==> balance(damage, tax, readiness(features, context)) == 0,
{
    law_readiness_is_bounded(features, context);
    let r = readiness(features, context);
    assert((-450_000 * 1_000_000) / r < 0) by (nonlinear_arith)
        requires
            600_000 <= r <= 1_400_000,
    ;
}

/// How readily a deck pays.
pub fn archetype_multiplier(
    features: Option<&DeckFeatures>,
    context: CombatTaxContext,
) -> (r: i128)
    ensures
        r == readiness(model::deref_opt(features), context),
        600_000 <= r <= 1_400_000,
{
    proof {
        law_readiness_is_bounded(model::deref_opt(features), context);
    }
    let (aggro, control): (i128, i128) = match features {
        Some(f) => (
            clamp_score(f.aggro_pressure.commitment as i128, 0, UNIT),
            clamp_score(f.control.commitment as i128, 0, UNIT),
        ),
        None => (0, 0),
    };
    match context {
        CombatTaxContext::Attacking => UNIT + mul_scaled(400_000, aggro) - mul_scaled(
            400_000,
            control,
        ),
        CombatTaxContext::Blocking => UNIT - mul_scaled(200_000, control),
    }
}

/// How much better it is to pay than not to.
fn payment_balance(damage: i64, tax: i64, readiness: i128) -> (r: i128)
    requires
        600_000 <= readiness <= 1_400_000,
    ensures
        r == balance(damage as int, tax as int, readiness as int),
        -1_000_000 <= r <= 1_000_000,
{
    if damage > tax {
        mul_scaled(350_000, readiness)
    } else if damage < tax {
        proof {
            assert(-1_000_000 <= (-450_000 * 1_000_000) / (readiness as int) <= 0)
                by (nonlinear_arith)
                requires
                    600_000 <= readiness <= 1_400_000,
            ;
        }
        div_floor(-450_000 * 1_000_000, score::max_score(readiness, 10_000))
    } else {
        0
    }
}

/// The total power of objects.
fn total_power(state: &GameState, ids: &Vec<ObjectId>) -> (r: i64)
    requires
        ids@.len() <= u32::MAX,
    ensures
        r == seqs::sum(ids@, power_of(*state)),
{
    let ghost f = power_of(*state);
    let mut total: i64 = 0;
    let mut i: usize = 0;
    while i < ids.len()
        invariant
            f == power_of(*state),
            ids@.len() <= u32::MAX,
            i <= ids@.len(),
            -0x8000_0000 * i <= total <= 0x8000_0000 * i,
            total == seqs::sum(ids@.take(i as int), f),
        decreases ids@.len() - i,
    {
        proof {
            seqs::lemma_sum_step(ids@, i as int, f);
        }
        if let Some(o) = state.object(ids[i]) {
            total += stat_or_zero(o.power) as i64;
        }
        i += 1;
    }
    assert(ids@.take(ids@.len() as int) =~= ids@);
    total
}

/// What is to be paid, and for which creatures.
#[derive(Debug)]
pub struct TaxSnapshot<'a> {
    pub context: CombatTaxContext,
    pub total_mana_value: u32,
    pub per_creature: &'a Vec<ObjectId>,
}

/// The tax that the game waits for, `None` where it waits for something else.
pub fn extract_tax_state<'a>(waiting_for: &'a WaitingFor) -> (r: Option<TaxSnapshot<'a>>)
    ensures
        match *waiting_for {
            WaitingFor::CombatTaxPayment { context, total_mana_value, per_creature, .. } => {
                r matches Some(tax) && tax.context == context && tax.total_mana_value
                    == total_mana_value && *tax.per_creature == per_creature
            },
            _ => r is None,
        },
{
    match waiting_for {
        WaitingFor::CombatTaxPayment { context, total_mana_value, per_creature, .. } => Some(
            TaxSnapshot {
                context: *context,
                total_mana_value: *total_mana_value,
                per_creature,
            },
        ),
        _ => None,
    }
}

/// How many creatures the taxed declaration has, none where there is no tax.
pub fn total_declared_count(waiting_for: &WaitingFor) -> (r: usize)
    ensures
        r == match *waiting_for {
            WaitingFor::CombatTaxPayment { pending, .. } => model::declared_size(pending),
            _ => 0,
        },
{
    match waiting_for {
        WaitingFor::CombatTaxPayment { pending, .. } => match pending {
            CombatTaxPending::Attack { attacks } => attacks.len(),
            CombatTaxPending::Block { assignments } => assignments.len(),
        },
        _ => 0,
    }
}

/// How many untapped mana sources a player has.
fn count_untapped_mana_sources(state: &GameState, player: PlayerId) -> (r: usize)
    ensures
        r == board::count(*state, state.battlefield@, untapped_source(player)),
        r <= state.battlefield@.len(),
{
    let accepts = |o: &GameObject| -> (b: bool)
        ensures
            b == untapped_source(player)(*o),
        {
            let for_mana = |a: &AbilityDefinition| -> (c: bool)
                ensures
                    c == activates_for_mana()(*a),
                {
                    a.kind == AbilityKind::Activated && matches!(
                        a.effect.kind,
                        EffectKind::Mana { .. }
                    )
                };
            o.controller == player && !o.tapped && (o.is_type(CoreType::Land) || seqs::any_of(
                &o.abilities,
                for_mana,
                Ghost(activates_for_mana()),
            ))
        };
    board::count_where(state, &state.battlefield, accepts, Ghost(untapped_source(player)))
}

/// The verdict on paying or not paying a tax.
fn tax_verdict(
    ctx: &PolicyContext<'_>,
    accept: bool,
    context: CombatTaxContext,
    total_mana_value: u32,
    per_creature: &Vec<ObjectId>,
    declared: usize,
) -> (r: PolicyVerdict)
    requires
        ctx.valid(),
        per_creature@.len() <= u32::MAX,
        declared <= u32::MAX,
    ensures
        r@ == tax_ruling(
            *ctx,
            accept,
            context,
            total_mana_value as int,
            per_creature@,
            declared as nat,
        ),
{
    let damage: i64 = total_power(ctx.state, per_creature);
    let tax: i64 = total_mana_value as i64;
    let taxed: i64 = per_creature.len() as i64;
    let features = ctx.context.session.features_of(ctx.ai_player);
    let readiness: i128 = archetype_multiplier(features, context);
    let base: i128 = payment_balance(damage, tax, readiness);
    let available: i64 = count_untapped_mana_sources(ctx.state, ctx.ai_player) as i64;
    let kind: &'static str = if accept {
        "combat_tax_accept"
    } else {
        "combat_tax_decline"
    };
    let delta: i128 = if accept {
        let mut delta: i128 = base;
        if available > 0 && available <= tax {
            delta -= 200_000;
        }
        if declared > 0 && 4 * taxed >= 3 * declared as i64 && damage > 0 {
            delta += 150_000;
        }
        if context == CombatTaxContext::Blocking {
            delta += 250_000;
        }
        delta
    } else {
        -base
    };
    PolicyVerdict::Score {
        delta,
        reason: PolicyReason::new(kind).with_fact("tax_mv", tax).with_fact(
            "expected_damage",
            damage,
        ).with_fact("taxed", taxed).with_fact("declared", declared as i64),
    }
}

impl TacticalPolicy for CombatTaxPaymentPolicy {
    open spec fn identity(&self) -> PolicyId {
        PolicyId::CombatTaxPayment
    }

    open spec fn kinds(&self) -> Seq<DecisionKind> {
        seq![DecisionKind::DeclareAttackers, DecisionKind::DeclareBlockers]
    }

    open spec fn weight(&self, features: DeckFeatures, state: GameState) -> Option<int> {
        activation::constant()
    }

    open spec fn ruling(&self, ctx: PolicyContext<'_>) -> Ruling {
        combat_tax_ruling(ctx)
    }

    fn id(&self) -> PolicyId {
        PolicyId::CombatTaxPayment
    }

    fn decision_kinds(&self) -> Vec<DecisionKind> {
        vec![DecisionKind::DeclareAttackers, DecisionKind::DeclareBlockers]
    }

    fn activation(
        &self,
        _features: &DeckFeatures,
        _state: &GameState,
        _player: PlayerId,
    ) -> Option<i128> {
        always()
    }

    fn verdict(&self, ctx: &PolicyContext<'_>) -> PolicyVerdict {
        let accept: bool = match &ctx.candidate.action {
            GameAction::PayCombatTax { accept } => *accept,
            _ => return PolicyVerdict::neutral(PolicyReason::new("combat_tax_na")),
        };
        match extract_tax_state(&ctx.state.waiting_for) {
            Some(tax) => tax_verdict(
                ctx,
                accept,
                tax.context,
                tax.total_mana_value,
                tax.per_creature,
                total_declared_count(&ctx.state.waiting_for),
            ),
            None => PolicyVerdict::neutral(PolicyReason::new("combat_tax_na")),
        }
    }
}

/// A deck that attacks is readier to pay for its attackers than one that does
/// not, one that answers is less ready, and less ready for its blockers too; a
/// seat that was not analysed is as ready as a deck that does neither.
pub proof fn law_attackers_pay_more_readily(f: DeckFeatures, context: CombatTaxContext)
    requires
        0 <= f.aggro_pressure.commitment <= 1_000_000,
        0 <= f.control.commitment <= 1_000_000,
    ensures
        readiness(None, context) == 1_000_000,
        ({
            let aggro = f.aggro_pressure.commitment as int;
            let control = f.control.commitment as int;
            let ready = readiness(Some(f), context);
            &&& context is Attacking ==> ready - 1 <= 1_000_000 + (2 * aggro) / 5 - (2 * control)
                / 5 <= ready + 1
            &&& context is Blocking ==> ready - 1 <= 1_000_000 - control / 5 <= ready + 1
        }),
{
}

/// Paying is preferred to not paying by twice the balance: what gets through
/// more than it costs counts for thirty-five hundredths times the readiness,
/// what costs more against it by forty-five divided by the readiness.
pub proof fn law_balance_of_a_neutral_deck(damage: int, tax: int)
    ensures
        damage > tax ==> balance(damage, tax, 1_000_000) == 350_000,
        damage < tax ==> balance(damage, tax, 1_000_000) == -450_000,
        damage == tax ==> balance(damage, tax, 1_000_000) == 0,
{
    assert(score::greater(1_000_000, 10_000) == 1_000_000);
    assert((-450_000 * 1_000_000) / 1_000_000int == -450_000) by (nonlinear_arith);
}

/// A readier deck gains more where it gets damage through and loses less where
/// it does not.
pub proof fn law_readier_decks_pay_more(damage: int, tax: int, ready: int, readier: int)
    requires
        600_000 <= ready <= readier <= 1_400_000,
    ensures
        balance(damage, tax, ready) <= balance(damage, tax, readier),
{
    assert(350_000 * ready <= 350_000 * readier);
    assert((-450_000_000_000) / ready <= (-450_000_000_000) / readier) by (nonlinear_arith)
        requires
            600_000 <= ready <= readier,
    ;
}

/// The power of the taxed creatures is what a tax lets through.
pub proof fn law_taxed_power_adds_up(state: GameState, taxed: Seq<ObjectId>, id: ObjectId)
    ensures
        seqs::sum(taxed.push(id), power_of(state)) == seqs::sum(taxed, power_of(state)) + (
        match state.obj(id) {
            Some(o) => match o.power {
                Some(n) => n as int,
                None => 0,
            },
            None => 0,
        }),
        seqs::sum(Seq::<ObjectId>::empty(), power_of(state)) == 0,
{
    seqs::lemma_sum_push(taxed, id, power_of(state));
}

/// Declining is worth the balance turned around. Paying is worth the balance,
/// less two tenths where it takes every untapped source, and more by fifteen
/// hundredths where it saves three quarters of a declaration that would deal
/// damage and by a quarter where it saves blockers.
pub proof fn law_paying_and_declining(
    ctx: PolicyContext<'_>,
    context: CombatTaxContext,
    tax: int,
    taxed: Seq<ObjectId>,
    declared: nat,
)
    ensures
        ({
            let damage = seqs::sum(taxed, power_of(*ctx.state));
            let base = balance(
                damage,
                tax,
                readiness(ctx.context.session.deck(ctx.ai_player), context),
            );
            let sources = board::count(
                *ctx.state,
                ctx.state.battlefield@,
                untapped_source(ctx.ai_player),
            );
            let pay = tax_ruling(ctx, true, context, tax, taxed, declared).worth();
            let decline = tax_ruling(ctx, false, context, tax, taxed, declared).worth();
            &&& decline == Some(-base)
            &&& pay matches Some(d) && d - base == (if sources > 0 && sources <= tax {
                -200_000int
            } else {
                0
            }) + (if declared > 0 && 4 * taxed.len() >= 3 * declared && damage > 0 {
                150_000int
            } else {
                0
            }) + (if context is Blocking {
                250_000int
            } else {
                0
            })
        }),
{
}

/// The tax that is judged is the one that the game waits for, with its total
/// and its creatures; no other decision is judged.
pub proof fn law_judged_tax_is_the_one_asked_for(ctx: PolicyContext<'_>)
    ensures
        match (ctx.candidate.action, ctx.state.waiting_for) {
            (
                GameAction::PayCombatTax { accept },
                WaitingFor::CombatTaxPayment { context, total_mana_value, per_creature, pending },
            ) => CombatTaxPaymentPolicy.ruling(ctx) == tax_ruling(
                ctx,
                accept,
                context,
                total_mana_value as int,
                per_creature@,
                match pending {
                    CombatTaxPending::Attack { attacks } => attacks@.len(),
                    CombatTaxPending::Block { assignments } => assignments@.len(),
                },
            ),
            _ => CombatTaxPaymentPolicy.ruling(ctx).worth() == Some(0int),
        },
{
}

/// A source of mana counts where the player controls it, it is untapped, and it
/// is a land or has an ability that is activated for mana.
pub proof fn law_untapped_sources(player: PlayerId, o: GameObject)
    ensures
        untapped_source(player)(o) ==> o.controller == player && !o.tapped,
        o.controller == player && !o.tapped && o.core_types@.contains(CoreType::Land)
            ==> untapped_source(player)(o),
        o.controller == player && !o.tapped && (exists|i: int|
            0 <= i < o.abilities@.len() && (#[trigger] o.abilities@[i]).kind is Activated
                && o.abilities@[i].effect.kind is Mana) ==> untapped_source(player)(o),
        untapped_source(player)(o) && !o.core_types@.contains(CoreType::Land) ==> exists|i: int|
            0 <= i < o.abilities@.len() && (#[trigger] o.abilities@[i]).kind is Activated
                && o.abilities@[i].effect.kind is Mana,
{
    let a = o.abilities@;
    if exists|i: int|
        0 <= i < a.len() && (#[trigger] a[i]).kind is Activated && a[i].effect.kind is Mana {
        let i = choose|i: int|
            0 <= i < a.len() && (#[trigger] a[i]).kind is Activated && a[i].effect.kind is Mana;
        assert(activates_for_mana()(a[i]));
    }
    if seqs::any(a, activates_for_mana()) {
        let i = choose|i: int| 0 <= i < a.len() && activates_for_mana()(#[trigger] a[i]);
        assert(a[i].kind is Activated && a[i].effect.kind is Mana);
    }
}

/// What the readings of a combat tax return: the readiness of the deck, the tax
/// that the game waits for, and how many creatures were declared.
pub proof fn law_tax_readings_return_their_values<'a>(
    features: Option<&DeckFeatures>,
    context: CombatTaxContext,
    ready: i128,
    waiting_for: &'a WaitingFor,
    tax: Option<TaxSnapshot<'a>>,
    declared: usize,
)
    requires
        call_ensures(archetype_multiplier, (features, context), ready),
        call_ensures(extract_tax_state, (waiting_for,), tax),
        call_ensures(total_declared_count, (waiting_for,), declared),
    ensures
        features is None ==> ready == 1_000_000,
        features matches Some(f) ==> ready == readiness(Some(*f), context),
        tax is Some <==> *waiting_for is CombatTaxPayment,
        !(*waiting_for is CombatTaxPayment) ==> declared == 0,
        *waiting_for matches WaitingFor::CombatTaxPayment {
            context: c,
            total_mana_value,
            per_creature,
            pending,
        } ==> {
            &&& tax matches Some(t) && t.context == c && t.total_mana_value == total_mana_value
                && *t.per_creature == per_creature
            &&& pending matches CombatTaxPending::Attack { attacks } ==> declared == attacks@.len()
            &&& pending matches CombatTaxPending::Block { assignments } ==> declared
                == assignments@.len()
        },
{
}

/// A verdict on a combat tax says what it costs, what gets through, and how
/// many of the declared creatures are taxed.
pub proof fn law_tax_verdicts_say_why(
    ctx: PolicyContext<'_>,
    accept: bool,
    context: CombatTaxContext,
    tax: int,
    taxed: Seq<ObjectId>,
    declared: nat,
)
    ensures
        ({
            let r = tax_ruling(ctx, accept, context, tax, taxed, declared);
            &&& accept ==> r.kind() == "combat_tax_accept"@
            &&& !accept ==> r.kind() == "combat_tax_decline"@
            &&& r.facts() == seq![
                ("tax_mv"@, tax),
                ("expected_damage"@, seqs::sum(taxed, power_of(*ctx.state))),
                ("taxed"@, taxed.len() as int),
                ("declared"@, declared as int),
            ]
        }),
{
}

} // verus!
