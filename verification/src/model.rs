//! A game position as plain values.
//!
//! These types hold what the AI reads of a position. A rules engine fills
//! them: where a rule of the game decides something (who the living opponents
//! are, which targets are legal, whether an ability is a mana ability), the
//! engine's answer is a field here.

use vstd::prelude::*;

verus! {

// ---------------------------------------------------------------------------
// Identifiers
// ---------------------------------------------------------------------------

/// A seat at the table. Seat `i` is `players[i]`.
#[derive(Debug, Clone, Copy, PartialEq, Eq, Structural, Hash)]
pub struct PlayerId(pub u8);

/// A game object: a card, token or ability on the stack.
#[derive(Debug, Clone, Copy, PartialEq, Eq, Structural, Hash)]
pub struct ObjectId(pub u64);

/// A physical card, the same in every zone.
#[derive(Debug, Clone, Copy, PartialEq, Eq, Structural, Hash)]
pub struct CardId(pub u64);

// ---------------------------------------------------------------------------
// Card vocabulary
// ---------------------------------------------------------------------------

#[derive(Debug, Clone, Copy, PartialEq, Eq, Structural)]
pub enum CoreType {
    Artifact,
    Battle,
    Creature,
    Enchantment,
    Instant,
    Land,
    Planeswalker,
    Sorcery,
    Other,
}

#[derive(Debug, Clone, Copy, PartialEq, Eq, Structural)]
pub enum Keyword {
    Flying,
    Trample,
    Vigilance,
    Menace,
    Lifelink,
    Deathtouch,
    FirstStrike,
    DoubleStrike,
    Haste,
    Hexproof,
    Indestructible,
    Shadow,
    Other,
}

#[derive(Debug, Clone, Copy, PartialEq, Eq, Structural)]
pub enum Zone {
    Battlefield,
    Hand,
    Library,
    Graveyard,
    Exile,
    Stack,
    Command,
}

#[derive(Debug, Clone, Copy, PartialEq, Eq, Structural)]
pub enum Phase {
    Untap,
    Upkeep,
    Draw,
    PreCombatMain,
    BeginCombat,
    DeclareAttackers,
    DeclareBlockers,
    CombatDamage,
    EndCombat,
    PostCombatMain,
    End,
    Cleanup,
}

/// How a permanent enters the battlefield.
#[derive(Debug, Clone, Copy, PartialEq, Eq, Structural)]
pub enum EtbTapState {
    Unspecified,
    Tapped,
    Untapped,
}

#[derive(Debug, Clone, Copy, PartialEq, Eq, Structural)]
pub enum ManaColor {
    White,
    Blue,
    Black,
    Red,
    Green,
}

#[derive(Debug, Clone, Copy, PartialEq, Eq, Structural)]
pub enum ManaType {
    White,
    Blue,
    Black,
    Red,
    Green,
    Colorless,
}

/// What a mana ability adds.
#[derive(Debug)]
pub enum ManaProduction {
    Fixed { colors: Vec<ManaColor> },
    Mixed { colors: Vec<ManaColor> },
    AnyOneColor { color_options: Vec<ManaColor> },
    AnyCombination { color_options: Vec<ManaColor> },
    ChoiceAmongCombinations { options: Vec<Vec<ManaColor>> },
    Colorless,
    ChosenColor,
    OpponentLandColors,
    AnyTypeProduceableBy,
    ChoiceAmongExiledColors,
    AnyInCommandersColorIdentity,
    DistinctColorsAmongPermanents,
    AnyOneColorAmongPermanents,
    TriggerEventManaType,
}

/// How many pips of each color a cost asks for.
#[derive(Debug, Clone, Copy, PartialEq, Eq, Structural)]
pub struct ColorDemand {
    pub white: u32,
    pub blue: u32,
    pub black: u32,
    pub red: u32,
    pub green: u32,
}

// ---------------------------------------------------------------------------
// Targets and filters
// ---------------------------------------------------------------------------

#[derive(Debug, Clone, Copy, PartialEq, Eq, Structural)]
pub enum TargetRef {
    Object(ObjectId),
    Player(PlayerId),
}

#[derive(Debug, Clone, Copy, PartialEq, Eq, Structural)]
pub enum ControllerRef {
    You,
    Opponent,
    Other,
}

/// A card-type condition of a filter.
#[derive(Debug)]
pub enum TypeFilter {
    Creature,
    Land,
    Artifact,
    Non(Box<TypeFilter>),
    AnyOf(Vec<TypeFilter>),
    Other,
}

/// The written form of a filter.
#[derive(Debug)]
pub enum FilterShape {
    Any,
    SelfRef,
    Controller,
    Player,
    Typed { controller: Option<ControllerRef>, type_filters: Vec<TypeFilter> },
    Other,
}

/// A filter over objects and players, with the rules engine's reading of it
/// for the source and the player that the enclosing effect belongs to.
#[derive(Debug)]
pub struct TargetFilter {
    pub shape: FilterShape,
    /// Everything that may legally be targeted.
    pub legal_targets: Vec<TargetRef>,
    /// Every object that matches, targetable or not.
    pub matching_objects: Vec<ObjectId>,
    /// Every player that matches.
    pub matching_players: Vec<PlayerId>,
    /// Whether the filter asks for a land card.
    pub references_land: bool,
}

// ---------------------------------------------------------------------------
// Effects and abilities
// ---------------------------------------------------------------------------

/// A number in an effect's text.
#[derive(Debug, Clone, Copy, PartialEq, Eq, Structural)]
pub enum QuantityExpr {
    Fixed { value: i32 },
    Dynamic,
}

#[derive(Debug, Clone, Copy, PartialEq, Eq, Structural)]
pub enum CounterType {
    Plus1Plus1,
    Other,
}

/// Who makes the piles of a "separate into piles" effect.
#[derive(Debug, Clone, Copy, PartialEq, Eq, Structural)]
pub enum VoterScope {
    EachOpponent,
    Other,
}

/// Who chooses among the piles.
#[derive(Debug, Clone, Copy, PartialEq, Eq, Structural)]
pub enum PlayerScope {
    Controller,
    Other,
}

/// Whether an effect helps or harms what it is pointed at.
#[derive(Debug, Clone, Copy, PartialEq, Eq, Structural)]
pub enum EffectPolarity {
    Beneficial,
    Harmful,
    Contextual,
}

/// What an effect does.
#[derive(Debug)]
pub enum EffectKind {
    Destroy,
    DealDamage,
    Counter,
    Pump,
    DoublePT,
    Bounce { target: TargetFilter },
    ChangeZone { destination: Zone, enter_tapped: EtbTapState },
    Mana { produced: ManaProduction },
    GainControl,
    GainControlAll,
    ExchangeControl { target_a: TargetFilter, target_b: TargetFilter },
    GiveControl { target: TargetFilter },
    SearchLibrary { filter: TargetFilter },
    RevealHand { target: TargetFilter, card_filter: TargetFilter },
    DiscardCard,
    Sacrifice { target: TargetFilter, count: QuantityExpr },
    Draw { count: QuantityExpr, target: TargetFilter },
    GainLife,
    LoseLife,
    SeparateIntoPiles { partition_subject: VoterScope, chooser: PlayerScope },
    ChangeTargets { forced_to: Option<TargetFilter> },
    PutCounter { counter_type: CounterType },
    Proliferate,
    Other,
}

/// One effect of an ability.
#[derive(Debug)]
pub struct Effect {
    pub kind: EffectKind,
    pub polarity: EffectPolarity,
    /// The target filter, where the effect can only be pointed at creatures.
    pub creature_target: Option<TargetFilter>,
}

#[derive(Debug, Clone, Copy, PartialEq, Eq, Structural)]
pub enum AbilityKind {
    Spell,
    Activated,
    Triggered,
    Other,
}

#[derive(Debug, Clone, Copy, PartialEq, Eq, Structural)]
pub enum AbilityTag {
    Cycling,
    Other,
}

/// The cost of an activated ability.
#[derive(Debug)]
pub enum AbilityCost {
    Tap,
    Mana { mana_value: u32 },
    Sacrifice { target: TargetFilter },
    Composite { costs: Vec<AbilityCost> },
    Other,
}

/// How a land-sacrifice protection ability would pay off if activated now.
#[derive(Debug, Clone, Copy, PartialEq, Eq, Structural)]
pub struct ProtectionPayoff {
    /// Whether the exact activation answers a threat; `None` where that cannot
    /// be told before targets are chosen.
    pub exact: Option<bool>,
    /// Whether some choice of targets would answer a threat.
    pub any: bool,
}

/// An ability as printed or granted.
#[derive(Debug)]
pub struct AbilityDefinition {
    pub kind: AbilityKind,
    pub effect: Effect,
    pub sub_ability: Option<Box<AbilityDefinition>>,
    pub cost: Option<AbilityCost>,
    pub ability_tag: Option<AbilityTag>,
    pub is_mana_ability: bool,
    /// Whether resolving it proliferates.
    pub proliferates: bool,
    /// Whether resolving it puts a +1/+1 counter on something.
    pub places_plus_one_counter: bool,
    /// Whether the intervening condition holds now; `None` where there is no
    /// condition, or where it can only be judged on resolution.
    pub condition_currently_met: Option<bool>,
    /// Present for an ability that sacrifices a land to protect a permanent.
    pub land_sacrifice_protection: Option<ProtectionPayoff>,
}

/// An ability being put on the stack or resolved.
#[derive(Debug)]
pub struct ResolvedAbility {
    pub effect: Effect,
    pub targets: Vec<TargetRef>,
    pub source_id: ObjectId,
    pub controller: PlayerId,
    pub sub_ability: Option<Box<ResolvedAbility>>,
    pub has_else_ability: bool,
    pub has_repeat_for: bool,
    pub has_player_scope: bool,
}

#[derive(Debug, Clone, Copy, PartialEq, Eq, Structural)]
pub enum TriggerMode {
    ChangesZone,
    Other,
}

/// A triggered ability of an object.
#[derive(Debug)]
pub struct TriggerDefinition {
    pub mode: TriggerMode,
    pub origin: Option<Zone>,
    pub destination: Option<Zone>,
    pub valid_card: Option<TargetFilter>,
    pub execute: Option<AbilityDefinition>,
}

/// A replacement effect of an object.
#[derive(Debug, Clone, Copy, PartialEq, Eq, Structural)]
pub struct ReplacementDefinition {
    /// Whether it changes how many +1/+1 counters are put.
    pub modifies_plus_one_counters: bool,
}

/// Counters of one type on an object.
#[derive(Debug, Clone, Copy, PartialEq, Eq, Structural)]
pub struct CounterPile {
    pub counter_type: CounterType,
    pub count: u32,
}

/// What a ward ability asks for.
#[derive(Debug)]
pub enum WardCost {
    Mana { mana_value: u32 },
    Waterbend { mana_value: u32 },
    PayLife { amount: i32 },
    PayLifeEqualToPower,
    DiscardCard,
    Sacrifice { count: u32, filter: TargetFilter },
    Compound { costs: Vec<WardCost> },
}

// ---------------------------------------------------------------------------
// Objects, players, the stack
// ---------------------------------------------------------------------------

/// An object in the game.
#[derive(Debug)]
pub struct GameObject {
    pub id: ObjectId,
    pub card_id: CardId,
    pub name: String,
    pub owner: PlayerId,
    pub controller: PlayerId,
    pub zone: Zone,
    pub core_types: Vec<CoreType>,
    pub subtypes: Vec<String>,
    pub power: Option<i32>,
    pub toughness: Option<i32>,
    pub loyalty: Option<u32>,
    pub keywords: Vec<Keyword>,
    pub mana_value: u32,
    pub tapped: bool,
    pub summoning_sick: bool,
    pub is_token: bool,
    pub is_emblem: bool,
    pub is_commander: bool,
    pub abilities: Vec<AbilityDefinition>,
    pub trigger_definitions: Vec<TriggerDefinition>,
    pub replacement_definitions: Vec<ReplacementDefinition>,
    pub counters: Vec<CounterPile>,
    /// Whether a static ability of it pumps the creatures its controller has.
    pub is_anthem: bool,
    /// Whether it is a creature or artifact that taps for mana.
    pub is_mana_dork: bool,
    /// Whether it is a spell that fetches a land.
    pub is_land_fetch_spell: bool,
    /// Whether it is a spell that adds mana once.
    pub is_ritual: bool,
    /// Whether it can be cast or returned from the graveyard by itself.
    pub has_recursion_keyword: bool,
}

/// A player.
#[derive(Debug)]
pub struct Player {
    pub id: PlayerId,
    pub life: i32,
    pub hand: Vec<ObjectId>,
    pub energy: u32,
    pub is_eliminated: bool,
    /// Mana floating in the pool.
    pub mana_pool_total: u32,
    /// Mana that could be spent this turn.
    pub available_mana: u32,
    /// The living opponents.
    pub opponents: Vec<PlayerId>,
}

/// A spell or ability on the stack.
#[derive(Debug)]
pub struct StackEntry {
    pub id: ObjectId,
    pub source_id: ObjectId,
    pub controller: PlayerId,
    pub ability: Option<ResolvedAbility>,
    /// What its targets could legally be changed to.
    pub legal_new_targets: Vec<TargetRef>,
    /// How much its resolution is worth to its controller, in millionths.
    pub impact: i32,
}

/// How much more damage a commander must deal to a player to defeat them.
#[derive(Debug, Clone, Copy, PartialEq, Eq, Structural)]
pub struct CommanderHeadroom {
    pub commander: ObjectId,
    pub defender: PlayerId,
    pub headroom: u32,
}

/// A blocker that may legally block an attacker.
#[derive(Debug, Clone, Copy, PartialEq, Eq, Structural)]
pub struct BlockPair {
    pub blocker: ObjectId,
    pub attacker: ObjectId,
}

// ---------------------------------------------------------------------------
// Decisions and actions
// ---------------------------------------------------------------------------

/// How often a loop shortcut is to be repeated.
#[derive(Debug, Clone, Copy, PartialEq, Eq, Structural)]
pub enum IterationCount {
    UntilLethal,
    Fixed(u32),
}

/// Something a player may do.
#[derive(Debug)]
pub enum GameAction {
    PassPriority,
    PlayLand { object_id: ObjectId },
    CastSpell { object_id: ObjectId, card_id: CardId },
    ActivateAbility { source_id: ObjectId, ability_index: usize },
    ChooseTarget { target: Option<TargetRef> },
    SelectTargets { targets: Vec<TargetRef> },
    SelectCards { cards: Vec<ObjectId> },
    PayCombatTax { accept: bool },
    DeclareShortcut { count: IterationCount },
    DeclineShortcut,
    DecideOptionalEffect { accept: bool },
    Other,
}

#[derive(Debug, Clone, Copy, PartialEq, Eq, Structural)]
pub enum CombatTaxContext {
    Attacking,
    Blocking,
}

/// The declaration that a combat tax interrupts.
#[derive(Debug)]
pub enum CombatTaxPending {
    Attack { attacks: Vec<ObjectId> },
    Block { assignments: Vec<ObjectId> },
}

#[derive(Debug, Clone, Copy, PartialEq, Eq, Structural)]
pub enum PayCostKind {
    Sacrifice,
    Other,
}

/// What a paid cost lets go on.
#[derive(Debug, Clone, Copy, PartialEq, Eq, Structural)]
pub enum CostResume {
    Spell,
    SpellCost,
    Other,
}

/// What the game waits for.
#[allow(inconsistent_fields)]
#[derive(Debug)]
pub enum WaitingFor {
    Priority { player: PlayerId },
    GameOver { winner: Option<PlayerId> },
    TargetSelection { object_id: ObjectId, ability: ResolvedAbility },
    MultiTargetSelection { pending_ability: ResolvedAbility },
    TriggerTargetSelection { source_id: Option<ObjectId> },
    BlightChoice,
    CombatTaxPayment {
        context: CombatTaxContext,
        total_mana_value: u32,
        per_creature: Vec<ObjectId>,
        pending: CombatTaxPending,
    },
    LoopShortcut { proposer: PlayerId, predicted_winner: Option<PlayerId> },
    OptionalEffectChoice { source_id: ObjectId },
    PayCost { kind: PayCostKind, resume: CostResume },
    WardSacrificeChoice,
    EffectZoneChoice { sacrifices: bool },
    Other,
}

/// A position.
#[derive(Debug)]
pub struct GameState {
    pub players: Vec<Player>,
    pub objects: Vec<GameObject>,
    pub battlefield: Vec<ObjectId>,
    pub stack: Vec<StackEntry>,
    pub revealed_cards: Vec<ObjectId>,
    pub turn_number: u32,
    pub phase: Phase,
    pub active_player: PlayerId,
    /// Who makes the decisions of this turn.
    pub turn_decision_maker: PlayerId,
    pub in_combat: bool,
    pub waiting_for: WaitingFor,
    /// Colored pips of the spell being cast.
    pub pending_cast_demand: Option<ColorDemand>,
    pub pending_trigger: Option<ResolvedAbility>,
    /// The optional effect a player is being asked about.
    pub optional_effect: Option<ResolvedAbility>,
    pub starting_life: i32,
    pub commander_damage_threshold: Option<u8>,
    pub commander_headroom: Vec<CommanderHeadroom>,
    pub legal_blocks: Vec<BlockPair>,
}

// ---------------------------------------------------------------------------
// Lookups
// ---------------------------------------------------------------------------

/// The first object of `objects` with the given id.
pub open spec fn find_object(objects: Seq<GameObject>, id: ObjectId) -> Option<GameObject>
    decreases objects.len(),
{
    if objects.len() == 0 {
        None
    } else if objects[0].id == id {
        Some(objects[0])
    } else {
        find_object(objects.drop_first(), id)
    }
}

/// The first object of `objects` that is the given card.
pub open spec fn find_card(objects: Seq<GameObject>, card_id: CardId) -> Option<GameObject>
    decreases objects.len(),
{
    if objects.len() == 0 {
        None
    } else if objects[0].card_id == card_id {
        Some(objects[0])
    } else {
        find_card(objects.drop_first(), card_id)
    }
}

/// `opt` with its reference taken away.
pub open spec fn deref_opt<A>(opt: Option<&A>) -> Option<A> {
    match opt {
        Some(x) => Some(*x),
        None => None,
    }
}

/// An optional stat, zero where absent.
pub open spec fn stat(v: Option<i32>) -> int {
    match v {
        Some(x) => x as int,
        None => 0,
    }
}

/// An optional stat, zero where absent.
pub fn stat_or_zero(v: Option<i32>) -> (r: i32)
    ensures
        r == stat(v),
{
    match v {
        Some(x) => x,
        None => 0,
    }
}

impl GameObject {
    pub open spec fn has_type(self, t: CoreType) -> bool {
        self.core_types@.contains(t)
    }

    pub open spec fn has(self, k: Keyword) -> bool {
        self.keywords@.contains(k)
    }

    /// Whether one of its card types is `t`.
    pub fn is_type(&self, t: CoreType) -> (r: bool)
        ensures
            r == self.has_type(t),
    {
        let mut i: usize = 0;
        while i < self.core_types.len()
            invariant
                i <= self.core_types.len(),
                forall|j: int| 0 <= j < i ==> self.core_types[j] != t,
            decreases self.core_types.len() - i,
        {
            if self.core_types[i] == t {
                assert(self.core_types@[i as int] == t);
                return true;
            }
            i += 1;
        }
        false
    }

    /// Whether it has the keyword `k`.
    pub fn has_keyword(&self, k: Keyword) -> (r: bool)
        ensures
            r == self.has(k),
    {
        let mut i: usize = 0;
        while i < self.keywords.len()
            invariant
                i <= self.keywords.len(),
                forall|j: int| 0 <= j < i ==> self.keywords[j] != k,
            decreases self.keywords.len() - i,
        {
            if self.keywords[i] == k {
                assert(self.keywords@[i as int] == k);
                return true;
            }
            i += 1;
        }
        false
    }
}

/// Whether `ids` holds `id`.
pub fn contains_object(ids: &Vec<ObjectId>, id: ObjectId) -> (r: bool)
    ensures
        r == ids@.contains(id),
{
    let mut i: usize = 0;
    while i < ids.len()
        invariant
            i <= ids.len(),
            forall|j: int| 0 <= j < i ==> ids[j] != id,
        decreases ids.len() - i,
    {
        if ids[i] == id {
            assert(ids@[i as int] == id);
            return true;
        }
        i += 1;
    }
    false
}

/// Whether `ids` holds `id`.
pub fn contains_player(ids: &Vec<PlayerId>, id: PlayerId) -> (r: bool)
    ensures
        r == ids@.contains(id),
{
    let mut i: usize = 0;
    while i < ids.len()
        invariant
            i <= ids.len(),
            forall|j: int| 0 <= j < i ==> ids[j] != id,
        decreases ids.len() - i,
    {
        if ids[i] == id {
            assert(ids@[i as int] == id);
            return true;
        }
        i += 1;
    }
    false
}

/// Whether `targets` holds `target`.
pub fn contains_target(targets: &Vec<TargetRef>, target: TargetRef) -> (r: bool)
    ensures
        r == targets@.contains(target),
{
    let mut i: usize = 0;
    while i < targets.len()
        invariant
            i <= targets.len(),
            forall|j: int| 0 <= j < i ==> targets[j] != target,
        decreases targets.len() - i,
    {
        if targets[i] == target {
            assert(targets@[i as int] == target);
            return true;
        }
        i += 1;
    }
    false
}

/// Whether a declaration under a combat tax, if there is one, has a size that
/// 32 bits can count.
pub open spec fn countable_declaration(waiting_for: WaitingFor) -> bool {
    match waiting_for {
        WaitingFor::CombatTaxPayment { per_creature, pending, .. } => per_creature.len()
            <= u32::MAX && declared_size(pending) <= u32::MAX,
        _ => true,
    }
}

/// How many creatures a declaration under a combat tax has.
pub open spec fn declared_size(pending: CombatTaxPending) -> nat {
    match pending {
        CombatTaxPending::Attack { attacks } => attacks@.len(),
        CombatTaxPending::Block { assignments } => assignments@.len(),
    }
}

/// Whether a declaration under a combat tax has a countable size.
fn is_countable_declaration(waiting_for: &WaitingFor) -> (r: bool)
    ensures
        r == countable_declaration(*waiting_for),
{
    match waiting_for {
        WaitingFor::CombatTaxPayment { per_creature, pending, .. } => {
            let declared: usize = match pending {
                CombatTaxPending::Attack { attacks } => attacks.len(),
                CombatTaxPending::Block { assignments } => assignments.len(),
            };
            per_creature.len() <= u32::MAX as usize && declared <= u32::MAX as usize
        },
        _ => true,
    }
}

impl GameState {
    /// The object with the given id.
    pub open spec fn obj(self, id: ObjectId) -> Option<GameObject> {
        find_object(self.objects@, id)
    }

    /// Whether `p` has a seat at the table.
    pub open spec fn seated(self, p: PlayerId) -> bool {
        (p.0 as int) < self.players.len()
    }

    /// The player in seat `p`.
    pub open spec fn seat(self, p: PlayerId) -> Player {
        self.players[p.0 as int]
    }

    /// The living opponents of `p`.
    pub open spec fn opponents_of(self, p: PlayerId) -> Seq<PlayerId> {
        self.seat(p).opponents@
    }

    /// What every position satisfies: seats are numbered by a byte, every
    /// opponent has a seat, nobody has more opponents than there are other
    /// seats, and the battlefield, every hand and a declaration under a combat
    /// tax have sizes that 32 bits can count.
    pub open spec fn valid(self) -> bool {
        &&& self.players.len() <= 256
        &&& self.battlefield.len() <= u32::MAX
        &&& countable_declaration(self.waiting_for)
        &&& forall|i: int|
            0 <= i < self.players.len() ==> (#[trigger] self.players[i]).opponents.len() <= 255
                && self.players[i].hand.len() <= u32::MAX
        &&& forall|i: int, j: int|
            0 <= i < self.players.len() && 0 <= j < self.players[i].opponents.len()
                ==> self.seated(#[trigger] self.players[i].opponents[j])
    }

    /// Whether the position is valid.
    pub fn is_valid(&self) -> (r: bool)
        ensures
            r == self.valid(),
    {
        if self.players.len() > 256 || self.battlefield.len() > u32::MAX as usize
            || !is_countable_declaration(&self.waiting_for) {
            return false;
        }
        let mut i: usize = 0;
        while i < self.players.len()
            invariant
                self.players.len() <= 256,
                self.battlefield.len() <= u32::MAX,
                countable_declaration(self.waiting_for),
                i <= self.players.len(),
                forall|k: int|
                    0 <= k < i ==> (#[trigger] self.players[k]).opponents.len() <= 255
                        && self.players[k].hand.len() <= u32::MAX,
                forall|k: int, j: int|
                    0 <= k < i && 0 <= j < self.players[k].opponents.len()
                        ==> self.seated(#[trigger] self.players[k].opponents[j]),
            decreases self.players.len() - i,
        {
            let opponents = &self.players[i].opponents;
            if opponents.len() > 255 || self.players[i].hand.len() > u32::MAX as usize {
                return false;
            }
            let mut j: usize = 0;
            while j < opponents.len()
                invariant
                    i < self.players.len(),
                    *opponents == self.players[i as int].opponents,
                    j <= opponents.len(),
                    forall|k: int| 0 <= k < j ==> self.seated(#[trigger] opponents[k]),
                decreases opponents.len() - j,
            {
                if opponents[j].0 as usize >= self.players.len() {
                    assert(!self.seated(self.players[i as int].opponents[j as int]));
                    return false;
                }
                j += 1;
            }
            i += 1;
        }
        true
    }

    /// The object with the given id.
    pub fn object(&self, id: ObjectId) -> (r: Option<&GameObject>)
        ensures
            deref_opt(r) == self.obj(id),
    {
        let mut i: usize = 0;
        assert(self.objects@.skip(0) =~= self.objects@);
        while i < self.objects.len()
            invariant
                i <= self.objects.len(),
                find_object(self.objects@.skip(i as int), id) == self.obj(id),
            decreases self.objects.len() - i,
        {
            assert(self.objects@.skip(i as int).drop_first() =~= self.objects@.skip(i + 1));
            if self.objects[i].id == id {
                return Some(&self.objects[i]);
            }
            i += 1;
        }
        None
    }

    /// The object that is the given card.
    pub fn object_of_card(&self, card_id: CardId) -> (r: Option<&GameObject>)
        ensures
            deref_opt(r) == find_card(self.objects@, card_id),
    {
        let mut i: usize = 0;
        assert(self.objects@.skip(0) =~= self.objects@);
        while i < self.objects.len()
            invariant
                i <= self.objects.len(),
                find_card(self.objects@.skip(i as int), card_id) == find_card(
                    self.objects@,
                    card_id,
                ),
            decreases self.objects.len() - i,
        {
            assert(self.objects@.skip(i as int).drop_first() =~= self.objects@.skip(i + 1));
            if self.objects[i].card_id == card_id {
                return Some(&self.objects[i]);
            }
            i += 1;
        }
        None
    }

    /// The player in seat `p`.
    pub fn player(&self, p: PlayerId) -> (r: &Player)
        requires
            self.seated(p),
        ensures
            *r == self.seat(p),
    {
        &self.players[p.0 as usize]
    }
}

/// A lookup finds an object with the id that was asked for, the first one, and
/// finds nothing only where no object has it.
pub proof fn law_lookup_finds_the_object(objects: Seq<GameObject>, id: ObjectId)
    ensures
        match find_object(objects, id) {
            Some(o) => exists|i: int|
                0 <= i < objects.len() && #[trigger] objects[i] == o && o.id == id && forall|
                    j: int,
                |
                    0 <= j < i ==> (#[trigger] objects[j]).id != id,
            None => forall|i: int| 0 <= i < objects.len() ==> (#[trigger] objects[i]).id != id,
        },
    decreases objects.len(),
{
    if objects.len() > 0 {
        if objects[0].id == id {
            assert(find_object(objects, id) == Some(objects[0]));
        } else {
            let rest = objects.drop_first();
            law_lookup_finds_the_object(rest, id);
            match find_object(rest, id) {
                Some(o) => {
                    let k = choose|k: int|
                        0 <= k < rest.len() && #[trigger] rest[k] == o && o.id == id && forall|
                            j: int,
                        |
                            0 <= j < k ==> (#[trigger] rest[j]).id != id;
                    assert(objects[k + 1] == o);
                    assert forall|j: int| 0 <= j < k + 1 implies (#[trigger] objects[j]).id
                        != id by {
                        if j > 0 {
                            assert(rest[j - 1].id != id);
                        }
                    }
                },
                None => {
                    assert forall|i: int| 0 <= i < objects.len() implies (
                    #[trigger] objects[i]).id != id by {
                        if i > 0 {
                            assert(rest[i - 1].id != id);
                        }
                    }
                },
            }
        }
    }
}

/// A lookup by card finds an object that is the card, and finds nothing only
/// where no object is.
pub proof fn law_card_lookup_finds_the_card(objects: Seq<GameObject>, card_id: CardId)
    ensures
        match find_card(objects, card_id) {
            Some(o) => objects.contains(o) && o.card_id == card_id,
            None => forall|i: int|
                0 <= i < objects.len() ==> (#[trigger] objects[i]).card_id != card_id,
        },
    decreases objects.len(),
{
    if objects.len() > 0 {
        assert(objects.contains(objects[0]));
        if objects[0].card_id != card_id {
            let rest = objects.drop_first();
            law_card_lookup_finds_the_card(rest, card_id);
            if let Some(o) = find_card(rest, card_id) {
                let k = choose|k: int| 0 <= k < rest.len() && rest[k] == o;
                assert(objects[k + 1] == o);
            } else {
                assert forall|i: int| 0 <= i < objects.len() implies (
                #[trigger] objects[i]).card_id != card_id by {
                    if i > 0 {
                        assert(rest[i - 1].card_id != card_id);
                    }
                }
            }
        }
    }
}

/// What the lookups of a position return: the object with the id, the object
/// that is the card, the player in the seat, and whether something is in a
/// list.
pub proof fn law_lookups_return_what_is_there(
    state: &GameState,
    id: ObjectId,
    card_id: CardId,
    p: PlayerId,
    object: Option<&GameObject>,
    card: Option<&GameObject>,
    player: &Player,
    stat_in: Option<i32>,
    stat_out: i32,
)
    requires
        call_ensures(GameState::object, (state, id), object),
        call_ensures(GameState::object_of_card, (state, card_id), card),
        call_ensures(GameState::player, (state, p), player),
        call_ensures(stat_or_zero, (stat_in,), stat_out),
    ensures
        object matches Some(o) ==> o.id == id && state.objects@.contains(*o),
        object is None ==> forall|i: int|
            0 <= i < state.objects@.len() ==> (#[trigger] state.objects@[i]).id != id,
        card matches Some(o) ==> o.card_id == card_id && state.objects@.contains(*o),
        card is None ==> forall|i: int|
            0 <= i < state.objects@.len() ==> (#[trigger] state.objects@[i]).card_id != card_id,
        *player == state.players@[p.0 as int],
        stat_in matches Some(n) ==> stat_out == n,
        stat_in is None ==> stat_out == 0,
{
    law_lookup_finds_the_object(state.objects@, id);
    law_card_lookup_finds_the_card(state.objects@, card_id);
}

/// What the membership tests return.
pub proof fn law_membership_is_told(
    o: &GameObject,
    t: CoreType,
    k: Keyword,
    ids: &Vec<ObjectId>,
    id: ObjectId,
    players: &Vec<PlayerId>,
    p: PlayerId,
    targets: &Vec<TargetRef>,
    target: TargetRef,
    answers: (bool, bool, bool, bool, bool),
)
    requires
        call_ensures(GameObject::is_type, (o, t), answers.0),
        call_ensures(GameObject::has_keyword, (o, k), answers.1),
        call_ensures(contains_object, (ids, id), answers.2),
        call_ensures(contains_player, (players, p), answers.3),
        call_ensures(contains_target, (targets, target), answers.4),
    ensures
        answers.0 <==> o.core_types@.contains(t),
        answers.1 <==> o.keywords@.contains(k),
        answers.2 <==> ids@.contains(id),
        answers.3 <==> players@.contains(p),
        answers.4 <==> targets@.contains(target),
{
}

/// A position is valid exactly where its seats fit a byte, the battlefield,
/// every hand and a taxed declaration can be counted in 32 bits, and the
/// opponents of each player, at most 255, have seats.
pub proof fn law_valid_positions_can_be_counted(state: &GameState, r: bool)
    requires
        call_ensures(GameState::is_valid, (state,), r),
    ensures
        r ==> state.players@.len() <= 256 && state.battlefield@.len() <= u32::MAX,
        r ==> forall|i: int|
            0 <= i < state.players@.len() ==> (#[trigger] state.players@[i]).hand@.len()
                <= u32::MAX && state.players@[i].opponents@.len() <= 255,
        r ==> forall|i: int, j: int|
            0 <= i < state.players@.len() && 0 <= j < state.players@[i].opponents@.len() ==> (
            #[trigger] state.players@[i].opponents@[j]).0 < state.players@.len(),
        !(state.waiting_for is CombatTaxPayment) && state.players@.len() <= 256
            && state.battlefield@.len() <= u32::MAX && (forall|i: int|
            0 <= i < state.players@.len() ==> (#[trigger] state.players@[i]).hand@.len()
                <= u32::MAX && state.players@[i].opponents@.len() <= 255) && (forall|
            i: int,
            j: int,
        |
            0 <= i < state.players@.len() && 0 <= j < state.players@[i].opponents@.len() ==> (
            #[trigger] state.players@[i].opponents@[j]).0 < state.players@.len()) ==> r,
{
    if r {
        assert forall|i: int| 0 <= i < state.players@.len() implies (
        #[trigger] state.players@[i]).hand@.len() <= u32::MAX && state.players@[i].opponents@.len()
            <= 255 by {
            assert(state.players[i].opponents.len() <= 255);
        }
        assert forall|i: int, j: int|
            0 <= i < state.players@.len() && 0 <= j
                < state.players@[i].opponents@.len() implies (
        #[trigger] state.players@[i].opponents@[j]).0 < state.players@.len() by {
            assert(state.seated(state.players[i].opponents[j]));
        }
    }
    if forall|i: int, j: int|
        0 <= i < state.players@.len() && 0 <= j < state.players@[i].opponents@.len() ==> (
        #[trigger] state.players@[i].opponents@[j]).0 < state.players@.len() {
        assert forall|i: int, j: int|
            0 <= i < state.players.len() && 0 <= j
                < state.players[i].opponents.len() implies state.seated(
            #[trigger] state.players[i].opponents[j],
        ) by {
            assert(state.players@[i].opponents@[j].0 < state.players@.len());
        }
    }
}

} // verus!
