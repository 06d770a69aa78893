//! Harvesting evaluation features from played games.
//!
//! A [`GameHarvester`] watches one game and keeps, for each completed turn, the
//! last quiet position: one with an empty stack. [`FeatureRow::extract`] is
//! what it keeps of a position. When the game is over every kept row is
//! labelled with the outcome.

use vstd::prelude::*;

use crate::eval;
use crate::eval::{evaluate_features, weigh, EvalFeatures, EvalWeights};
use crate::model::{GameState, PlayerId};
use crate::score;

verus! {

/// The seat whose point of view is harvested.
pub const HARVEST_SEAT: u8 = 0;

/// What the strategic evaluation knows of a position beyond the board, in
/// millionths.
#[derive(Debug, Clone, Copy, PartialEq, Eq, Structural)]
pub struct StrategicFacts {
    /// The difference in cards and resources.
    pub card_advantage_differential: i64,
    /// The synergy on the board, for a seat whose deck was analysed.
    pub synergy: Option<i64>,
    /// The quality of hand and graveyard.
    pub zone_quality: i64,
}

/// The features that are fitted, and the energy offset as a control. Each
/// fitted feature is named after the weight that multiplies it.
#[derive(Debug, Clone, Copy, PartialEq, Eq, Structural)]
pub struct FeatureRow {
    pub life: i128,
    pub board_presence: i128,
    pub board_power: i128,
    pub board_toughness: i128,
    pub hand_size: i128,
    pub aggression: i128,
    pub card_advantage: i128,
    pub zone_quality: i128,
    pub synergy: i128,
    pub energy_offset: i128,
}

/// No entry of a row that can be weighted is farther from zero than this.
pub open spec fn in_range(v: int) -> bool {
    -eval::WEIGHABLE_LIMIT <= v <= eval::WEIGHABLE_LIMIT
}

/// The synergy of a deck, nothing where the deck was not analysed.
pub open spec fn synergy_value(facts: StrategicFacts) -> int {
    match facts.synergy {
        Some(v) => v as int,
        None => 0,
    }
}

/// Whether `row` holds the features `f` together with the strategic facts.
pub open spec fn is_row(f: EvalFeatures, facts: StrategicFacts, row: FeatureRow) -> bool {
    &&& row.life == f.life
    &&& row.board_presence == f.board_presence
    &&& row.board_power == f.board_power
    &&& row.board_toughness == f.board_toughness
    &&& row.hand_size == f.hand_size
    &&& row.aggression == f.aggression
    &&& row.card_advantage == f.card_advantage_breakdown + facts.card_advantage_differential
    &&& row.zone_quality == facts.zone_quality
    &&& row.synergy == synergy_value(facts)
    &&& row.energy_offset == f.energy_offset
}

/// Whether `row` is the row of a position.
pub open spec fn is_row_of(
    state: GameState,
    facts: StrategicFacts,
    player: PlayerId,
    row: FeatureRow,
) -> bool {
    exists|f: EvalFeatures| #[trigger]
        eval::is_features(state, player, f) && is_row(f, facts, row)
}

impl FeatureRow {
    /// Whether products with bounded weights stay within range.
    pub open spec fn bounded(self) -> bool {
        &&& in_range(self.life as int)
        &&& in_range(self.board_presence as int)
        &&& in_range(self.board_power as int)
        &&& in_range(self.board_toughness as int)
        &&& in_range(self.hand_size as int)
        &&& in_range(self.aggression as int)
        &&& in_range(self.card_advantage as int)
        &&& in_range(self.zone_quality as int)
        &&& in_range(self.synergy as int)
    }

    /// The weighted sum of the fitted features.
    pub open spec fn weighted_sum(self, w: EvalWeights) -> int {
        score::scaled(self.life as int, w.life as int) + score::scaled(
            self.board_presence as int,
            w.board_presence as int,
        ) + score::scaled(self.board_power as int, w.board_power as int) + score::scaled(
            self.board_toughness as int,
            w.board_toughness as int,
        ) + score::scaled(self.hand_size as int, w.hand_size as int) + score::scaled(
            self.aggression as int,
            w.aggression as int,
        ) + score::scaled(self.card_advantage as int, w.card_advantage as int) + score::scaled(
            self.zone_quality as int,
            w.zone_quality as int,
        ) + score::scaled(self.synergy as int, w.synergy as int)
    }

    /// The features of an open position, `None` where the position decides the
    /// game and would leak its label.
    pub fn extract(
        state: &GameState,
        facts: &StrategicFacts,
        player: PlayerId,
    ) -> (r: Option<FeatureRow>)
        requires
            state.valid(),
            state.seated(player),
        ensures
            match r {
                Some(row) => eval::terminal_score(*state, player) is None && is_row_of(
                    *state,
                    *facts,
                    player,
                    row,
                ) && row.bounded(),
                None => eval::terminal_score(*state, player) is Some,
            },
    {
        let f = match evaluate_features(state, player) {
            Ok(f) => f,
            Err(_) => return None,
        };
        let row = FeatureRow {
            life: f.life,
            board_presence: f.board_presence,
            board_power: f.board_power,
            board_toughness: f.board_toughness,
            hand_size: f.hand_size,
            aggression: f.aggression,
            card_advantage: f.card_advantage_breakdown + facts.card_advantage_differential as i128,
            zone_quality: facts.zone_quality as i128,
            synergy: match facts.synergy {
                Some(v) => v as i128,
                None => 0,
            },
            energy_offset: f.energy_offset,
        };
        assert(eval::is_features(*state, player, f));
        assert(is_row(f, *facts, row));
        Some(row)
    }

    /// The weighted sum of the fitted features, without the energy offset.
    pub fn weighted_total(&self, w: &EvalWeights) -> (r: i128)
        requires
            self.bounded(),
            w.bounded(),
        ensures
            r == self.weighted_sum(*w),
    {
        weigh(self.life, w.life) + weigh(self.board_presence, w.board_presence) + weigh(
            self.board_power,
            w.board_power,
        ) + weigh(self.board_toughness, w.board_toughness) + weigh(self.hand_size, w.hand_size)
            + weigh(self.aggression, w.aggression) + weigh(self.card_advantage, w.card_advantage)
            + weigh(self.zone_quality, w.zone_quality) + weigh(self.synergy, w.synergy)
    }
}

/// The energy offset is a control: it does not change a row's weighted sum.
pub proof fn law_energy_is_not_weighted(a: FeatureRow, b: FeatureRow, w: EvalWeights)
    requires
        b == (FeatureRow { energy_offset: b.energy_offset, ..a }),
    ensures
        a.weighted_sum(w) == b.weighted_sum(w),
{
}

/// Where the strategic facts are all nothing, a row weighs what the board
/// features weigh.
pub proof fn law_row_extends_the_board_features(
    f: EvalFeatures,
    facts: StrategicFacts,
    row: FeatureRow,
    w: EvalWeights,
)
    requires
        is_row(f, facts, row),
        facts.card_advantage_differential == 0,
        synergy_value(facts) == 0,
        facts.zone_quality == 0,
    ensures
        row.weighted_sum(w) == f.weighted_sum(w),
{
    assert(score::scaled(0, w.zone_quality as int) == 0) by {
        assert(0 * w.zone_quality == 0) by (nonlinear_arith);
    }
    assert(score::scaled(0, w.synergy as int) == 0) by {
        assert(0 * w.synergy == 0) by (nonlinear_arith);
    }
}

/// One labelled row.
#[derive(Debug)]
pub struct HarvestRecord {
    pub seed: u64,
    pub matchup_id: String,
    pub game_idx: usize,
    pub turn: u32,
    pub features: FeatureRow,
    pub won: bool,
}

/// The observer of one game.
#[derive(Debug)]
pub struct GameHarvester {
    pub seed: u64,
    pub matchup_id: String,
    pub game_idx: usize,
    pub player: PlayerId,
    /// The latest quiet position of the turn in progress.
    pub pending: Option<(u32, FeatureRow)>,
    /// The last quiet position of each completed turn that had one.
    pub buffer: Vec<(u32, FeatureRow)>,
}

/// Whether a position is one that may be harvested: nothing is on the stack,
/// and the game is open.
pub open spec fn quiet(seen: (GameState, StrategicFacts), player: PlayerId) -> bool {
    seen.0.stack@.len() == 0 && eval::terminal_score(seen.0, player) is None
}

/// Whether `turns` holds strictly increasing turn numbers.
pub open spec fn increasing(turns: Seq<(u32, FeatureRow)>) -> bool {
    forall|i: int, j: int| 0 <= i < j < turns.len() ==> (#[trigger] turns[i]).0 < (#[trigger] turns[j]).0
}

impl GameHarvester {
    /// Kept turns are in order, and all before the turn in progress.
    pub open spec fn wf(self) -> bool {
        &&& increasing(self.buffer@)
        &&& self.pending matches Some(p) ==> forall|i: int|
            0 <= i < self.buffer@.len() ==> (#[trigger] self.buffer@[i]).0 < p.0
    }

    /// Whether a position of turn `turn` may come next: it is not before
    /// anything that was seen.
    pub open spec fn may_follow(self, turn: u32) -> bool {
        &&& self.pending matches Some(p) ==> p.0 <= turn
        &&& forall|i: int| 0 <= i < self.buffer@.len() ==> (#[trigger] self.buffer@[i]).0 < turn
    }

    /// The same game.
    pub open spec fn same_game(self, other: GameHarvester) -> bool {
        &&& self.seed == other.seed
        &&& self.matchup_id == other.matchup_id
        &&& self.game_idx == other.game_idx
        &&& self.player == other.player
    }

    /// What is kept once a position of turn `turn` has been seen: a snapshot of
    /// an earlier turn is complete.
    pub open spec fn flushed(self, turn: u32) -> Seq<(u32, FeatureRow)> {
        match self.pending {
            Some(p) => if turn > p.0 {
                self.buffer@.push(p)
            } else {
                self.buffer@
            },
            None => self.buffer@,
        }
    }

    /// Whether nothing has been seen yet, from the seat that is harvested.
    pub open spec fn fresh(self) -> bool {
        &&& self.player.0 == HARVEST_SEAT
        &&& self.pending is None
        &&& self.buffer@.len() == 0
    }

    /// Whether `next` is this harvester after it has seen a position: a
    /// snapshot of an earlier turn is kept; then, if the position is quiet and
    /// open, it is the snapshot of its turn.
    pub open spec fn observed(self, seen: (GameState, StrategicFacts), next: GameHarvester) -> bool {
        let turn = seen.0.turn_number;
        &&& next.same_game(self)
        &&& next.buffer@ == self.flushed(turn)
        &&& if quiet(seen, self.player) {
            next.pending matches Some(p) && p.0 == turn && is_row_of(
                seen.0,
                seen.1,
                self.player,
                p.1,
            ) && p.1.bounded()
        } else {
            next.pending == (match self.pending {
                Some(p) => if turn > p.0 {
                    None
                } else {
                    Some(p)
                },
                None => None,
            })
        }
    }

    /// A harvester for one game.
    pub fn new(seed: u64, matchup_id: String, game_idx: usize) -> (r: Self)
        ensures
            r.wf(),
            r.fresh(),
            r.seed == seed,
            r.matchup_id == matchup_id,
            r.game_idx == game_idx,
    {
        GameHarvester {
            seed,
            matchup_id,
            game_idx,
            player: PlayerId(HARVEST_SEAT),
            pending: None,
            buffer: Vec::new(),
        }
    }

    /// Sees a position between two batches. A snapshot of an earlier turn is
    /// kept; then, if the position is quiet and open, it becomes the snapshot
    /// of its turn.
    pub fn observe(&mut self, state: &GameState, facts: &StrategicFacts)
        requires
            state.valid(),
            state.seated(old(self).player),
        ensures
            old(self).observed((*state, *facts), *final(self)),
            old(self).wf() && old(self).may_follow(state.turn_number) ==> final(self).wf(),
    {
        if let Some(pending) = self.pending {
            if state.turn_number > pending.0 {
                self.buffer.push(pending);
                self.pending = None;
            }
        }
        if state.stack.len() == 0 {
            if let Some(row) = FeatureRow::extract(state, facts, self.player) {
                self.pending = Some((state.turn_number, row));
            }
        }
    }

    /// Whether `r` is the record of a kept turn in a game with the given
    /// winner.
    pub open spec fn is_record(
        self,
        kept: (u32, FeatureRow),
        winner: PlayerId,
        r: HarvestRecord,
    ) -> bool {
        &&& r.seed == self.seed
        &&& r.matchup_id@ == self.matchup_id@
        &&& r.game_idx == self.game_idx
        &&& r.turn == kept.0
        &&& r.features == kept.1
        &&& r.won == (winner == self.player)
    }

    /// Whether `records` are what was kept, labelled: none without a winner.
    pub open spec fn labelled(
        self,
        winner: Option<PlayerId>,
        records: Seq<HarvestRecord>,
    ) -> bool {
        match winner {
            None => records.len() == 0,
            Some(w) => records.len() == self.buffer@.len() && forall|i: int|
                0 <= i < records.len() ==> self.is_record(
                    self.buffer@[i],
                    w,
                    #[trigger] records[i],
                ),
        }
    }

    /// Labels what was kept. The snapshot of the unfinished last turn is
    /// dropped, and a game without a winner contributes nothing.
    pub fn finish(self, winner: Option<PlayerId>) -> (r: Vec<HarvestRecord>)
        ensures
            self.labelled(winner, r@),
    {
        let mut records: Vec<HarvestRecord> = Vec::new();
        let winner = match winner {
            Some(w) => w,
            None => return records,
        };
        let won: bool = winner == self.player;
        let mut i: usize = 0;
        while i < self.buffer.len()
            invariant
                won == (winner == self.player),
                i <= self.buffer@.len(),
                records@.len() == i,
                forall|k: int|
                    0 <= k < i ==> self.is_record(self.buffer@[k], winner, #[trigger] records@[k]),
            decreases self.buffer@.len() - i,
        {
            let (turn, features) = self.buffer[i];
            records.push(
                HarvestRecord {
                    seed: self.seed,
                    matchup_id: self.matchup_id.clone(),
                    game_idx: self.game_idx,
                    turn,
                    features,
                    won,
                },
            );
            i += 1;
        }
        records
    }
}

/// At most one record per completed turn, in turn order: the records of a
/// well-formed harvest have strictly increasing turns, all before the turn in
/// progress.
pub proof fn law_records_follow_the_turns(
    h: GameHarvester,
    winner: PlayerId,
    records: Seq<HarvestRecord>,
)
    requires
        h.wf(),
        records.len() == h.buffer@.len(),
        forall|i: int|
            0 <= i < records.len() ==> h.is_record(h.buffer@[i], winner, #[trigger] records[i]),
    ensures
        forall|i: int, j: int|
            0 <= i < j < records.len() ==> (#[trigger] records[i]).turn < (
            #[trigger] records[j]).turn,
        h.pending matches Some(p) ==> forall|i: int|
            0 <= i < records.len() ==> (#[trigger] records[i]).turn < p.0,
{
}

/// Whether every position that was seen may follow the one before it: turns
/// never decrease.
pub open spec fn in_turn_order(seen: Seq<(GameState, StrategicFacts)>) -> bool {
    forall|i: int, j: int|
        0 <= i <= j < seen.len() ==> (#[trigger] seen[i]).0.turn_number <= (
        #[trigger] seen[j]).0.turn_number
}

/// Whether `course` is how a harvester went through the positions that it saw,
/// from the start of a game.
pub open spec fn is_course(
    course: Seq<GameHarvester>,
    seen: Seq<(GameState, StrategicFacts)>,
) -> bool {
    &&& course.len() == seen.len() + 1
    &&& course[0].fresh()
    &&& forall|i: int|
        0 <= i < seen.len() ==> (#[trigger] course[i]).observed(seen[i], course[i + 1])
}

/// Whether the position at `i` is the last quiet one of its turn among the
/// first `n`.
pub open spec fn is_last_quiet(
    seen: Seq<(GameState, StrategicFacts)>,
    player: PlayerId,
    n: int,
    i: int,
) -> bool {
    &&& 0 <= i < n
    &&& quiet(seen[i], player)
    &&& forall|j: int|
        i < j < n && (#[trigger] seen[j]).0.turn_number == seen[i].0.turn_number ==> !quiet(
            seen[j],
            player,
        )
}

/// Whether a snapshot is that of the last quiet position of its turn among the
/// first `n`.
pub open spec fn is_snapshot(
    seen: Seq<(GameState, StrategicFacts)>,
    player: PlayerId,
    n: int,
    kept: (u32, FeatureRow),
) -> bool {
    exists|i: int| #[trigger]
        is_last_quiet(seen, player, n, i) && seen[i].0.turn_number == kept.0 && is_row_of(
            seen[i].0,
            seen[i].1,
            player,
            kept.1,
        )
}

/// Whether a turn has a snapshot among `kept`.
pub open spec fn has_turn(kept: Seq<(u32, FeatureRow)>, turn: u32) -> bool {
    exists|k: int| 0 <= k < kept.len() && (#[trigger] kept[k]).0 == turn
}

/// What holds of a harvester after the first `n` positions.
spec fn holds_after(
    h: GameHarvester,
    start: GameHarvester,
    seen: Seq<(GameState, StrategicFacts)>,
    n: int,
) -> bool {
    let player = start.player;
    &&& h.wf()
    &&& h.same_game(start)
    &&& n == 0 ==> h.fresh()
    &&& forall|k: int|
        0 <= k < h.buffer@.len() ==> n > 0 && (#[trigger] h.buffer@[k]).0
            < seen[n - 1].0.turn_number && is_snapshot(seen, player, n, h.buffer@[k])
    &&& h.pending matches Some(p) ==> n > 0 && p.0 == seen[n - 1].0.turn_number && is_snapshot(
        seen,
        player,
        n,
        p,
    )
    &&& forall|i: int|
        0 <= i < n && quiet(#[trigger] seen[i], player) ==> if seen[i].0.turn_number
            == seen[n - 1].0.turn_number {
            h.pending is Some
        } else {
            has_turn(h.buffer@, seen[i].0.turn_number)
        }
}

/// A snapshot stays one after a position that is not a quiet one of its turn.
proof fn lemma_snapshot_stays(
    seen: Seq<(GameState, StrategicFacts)>,
    player: PlayerId,
    n: int,
    kept: (u32, FeatureRow),
)
    requires
        0 <= n < seen.len(),
        is_snapshot(seen, player, n, kept),
        seen[n].0.turn_number == kept.0 ==> !quiet(seen[n], player),
    ensures
        is_snapshot(seen, player, n + 1, kept),
{
    let i = choose|i: int| #[trigger]
        is_last_quiet(seen, player, n, i) && seen[i].0.turn_number == kept.0 && is_row_of(
            seen[i].0,
            seen[i].1,
            player,
            kept.1,
        );
    assert(is_last_quiet(seen, player, n + 1, i));
}

/// One more position keeps what holds.
proof fn lemma_one_more(
    h: GameHarvester,
    next: GameHarvester,
    start: GameHarvester,
    seen: Seq<(GameState, StrategicFacts)>,
    n: int,
)
    requires
        0 <= n < seen.len(),
        in_turn_order(seen),
        holds_after(h, start, seen, n),
        h.observed(seen[n], next),
    ensures
        h.may_follow(seen[n].0.turn_number),
        holds_after(next, start, seen, n + 1),
{
    let player = start.player;
    let turn = seen[n].0.turn_number;
    if n > 0 {
        assert(seen[n - 1].0.turn_number <= turn);
    }
    assert forall|k: int| 0 <= k < next.buffer@.len() implies (#[trigger] next.buffer@[k]).0 < turn
        && is_snapshot(seen, player, n + 1, next.buffer@[k]) by {
        if k < h.buffer@.len() {
            assert(next.buffer@[k] == h.buffer@[k]);
        }
        lemma_snapshot_stays(seen, player, n, next.buffer@[k]);
    }
    if let Some(p) = next.pending {
        if quiet(seen[n], player) {
            assert(is_last_quiet(seen, player, n + 1, n));
        } else {
            lemma_snapshot_stays(seen, player, n, p);
        }
    }
    assert forall|i: int| 0 <= i < n + 1 && quiet(#[trigger] seen[i], player) implies (if
    seen[i].0.turn_number == turn {
        next.pending is Some
    } else {
        has_turn(next.buffer@, seen[i].0.turn_number)
    }) by {
        if i < n {
            let t = seen[i].0.turn_number;
            assert(t <= seen[n - 1].0.turn_number);
            if t != turn {
                if t == seen[n - 1].0.turn_number {
                    assert(next.buffer@[h.buffer@.len() as int].0 == t);
                } else {
                    let k = choose|k: int|
                        0 <= k < h.buffer@.len() && (#[trigger] h.buffer@[k]).0 == t;
                    assert(next.buffer@[k] == h.buffer@[k]);
                }
            }
        }
    }
}

/// What holds after the first `n` positions.
proof fn lemma_course(
    course: Seq<GameHarvester>,
    seen: Seq<(GameState, StrategicFacts)>,
    n: int,
)
    requires
        is_course(course, seen),
        in_turn_order(seen),
        0 <= n <= seen.len(),
    ensures
        holds_after(course[n], course[0], seen, n),
        n < seen.len() ==> course[n].may_follow(seen[n].0.turn_number),
    decreases n,
{
    if n > 0 {
        lemma_course(course, seen, n - 1);
        assert(course[n - 1].observed(seen[n - 1], course[n - 1 + 1]));
        lemma_one_more(course[n - 1], course[n], course[0], seen, n - 1);
    }
    if n < seen.len() {
        assert(course[n].observed(seen[n], course[n + 1]));
        lemma_one_more(course[n], course[n + 1], course[0], seen, n);
    }
}

/// The course of a game: where turns never decrease, every position may follow
/// what was seen before it, and the harvester stays well formed.
pub proof fn law_course_stays_well_formed(
    course: Seq<GameHarvester>,
    seen: Seq<(GameState, StrategicFacts)>,
)
    requires
        is_course(course, seen),
        in_turn_order(seen),
    ensures
        forall|n: int| 0 <= n <= seen.len() ==> (#[trigger] course[n]).wf(),
        forall|n: int|
            0 <= n < seen.len() ==> (#[trigger] course[n]).may_follow(seen[n].0.turn_number),
{
    assert forall|n: int| 0 <= n <= seen.len() implies (#[trigger] course[n]).wf() by {
        lemma_course(course, seen, n);
    }
    assert forall|n: int| 0 <= n < seen.len() implies (#[trigger] course[n]).may_follow(
        seen[n].0.turn_number,
    ) by {
        lemma_course(course, seen, n);
    }
}

/// Whether a turn was seen quiet, and a later turn after it.
pub open spec fn completed(
    seen: Seq<(GameState, StrategicFacts)>,
    player: PlayerId,
    turn: u32,
) -> bool {
    exists|i: int, j: int|
        0 <= i < j < seen.len() && quiet(#[trigger] seen[i], player) && seen[i].0.turn_number
            == turn && (#[trigger] seen[j]).0.turn_number > turn
}

/// The harvest of a whole game, from its start to its labelled records. Without
/// a winner there are none. With one, every record has the identity of the
/// game and the outcome for the first seat; turns strictly increase; a turn has
/// a record exactly where a quiet position of it and then a later turn were
/// seen; and its features are those of the last such position.
pub proof fn law_harvest_of_a_game(
    course: Seq<GameHarvester>,
    seen: Seq<(GameState, StrategicFacts)>,
    winner: Option<PlayerId>,
    records: Seq<HarvestRecord>,
)
    requires
        is_course(course, seen),
        in_turn_order(seen),
        course.last().labelled(winner, records),
    ensures
        winner is None ==> records.len() == 0,
        winner matches Some(w) ==> {
            &&& forall|k: int|
                0 <= k < records.len() ==> {
                    &&& (#[trigger] records[k]).won == (w == PlayerId(0))
                    &&& records[k].seed == course[0].seed
                    &&& records[k].matchup_id@ == course[0].matchup_id@
                    &&& records[k].game_idx == course[0].game_idx
                    &&& is_snapshot(
                        seen,
                        PlayerId(0),
                        seen.len() as int,
                        (records[k].turn, records[k].features),
                    )
                }
            &&& forall|i: int, j: int|
                0 <= i < j < records.len() ==> (#[trigger] records[i]).turn < (
                #[trigger] records[j]).turn
            &&& forall|turn: u32| #[trigger]
                completed(seen, PlayerId(0), turn) == (exists|k: int|
                    0 <= k < records.len() && (#[trigger] records[k]).turn == turn)
        },
{
    let n = seen.len() as int;
    let h = course[n];
    let player = course[0].player;
    assert(player == PlayerId(0));
    lemma_course(course, seen, n);
    if let Some(w) = winner {
        assert forall|k: int| 0 <= k < records.len() implies is_snapshot(
            seen,
            player,
            n,
            ((#[trigger] records[k]).turn, records[k].features),
        ) by {
            assert(h.is_record(h.buffer@[k], w, records[k]));
            assert(h.buffer@[k] == (records[k].turn, records[k].features));
        }
        assert forall|turn: u32| #[trigger] completed(seen, player, turn) == (exists|k: int|
            0 <= k < records.len() && (#[trigger] records[k]).turn == turn) by {
            if completed(seen, player, turn) {
                let (i, j) = choose|i: int, j: int|
                    0 <= i < j < seen.len() && quiet(#[trigger] seen[i], player)
                        && seen[i].0.turn_number == turn && (#[trigger] seen[j]).0.turn_number
                        > turn;
                assert(seen[j].0.turn_number <= seen[n - 1].0.turn_number);
                assert(has_turn(h.buffer@, turn));
                let k = choose|k: int|
                    0 <= k < h.buffer@.len() && (#[trigger] h.buffer@[k]).0 == turn;
                assert(h.is_record(h.buffer@[k], w, records[k]));
            }
            if exists|k: int| 0 <= k < records.len() && (#[trigger] records[k]).turn == turn {
                let k = choose|k: int|
                    0 <= k < records.len() && (#[trigger] records[k]).turn == turn;
                assert(h.is_record(h.buffer@[k], w, records[k]));
                let kept = h.buffer@[k];
                let i = choose|i: int| #[trigger]
                    is_last_quiet(seen, player, n, i) && seen[i].0.turn_number == kept.0
                        && is_row_of(seen[i].0, seen[i].1, player, kept.1);
                assert(quiet(seen[i], player) && seen[n - 1].0.turn_number > turn);
                assert(i < n - 1);
            }
        }
        assert forall|i: int, j: int| 0 <= i < j < records.len() implies (
        #[trigger] records[i]).turn < (#[trigger] records[j]).turn by {
            assert(h.is_record(h.buffer@[i], w, records[i]));
            assert(h.is_record(h.buffer@[j], w, records[j]));
        }
    }
}

/// What `extract` returns: a row exactly where the game is open, with the
/// features that `evaluate_features` returns for the position.
pub proof fn law_row_holds_the_features(
    state: &GameState,
    facts: &StrategicFacts,
    player: PlayerId,
    r: Option<FeatureRow>,
    features: Result<EvalFeatures, i128>,
)
    requires
        call_ensures(FeatureRow::extract, (state, facts, player), r),
        call_ensures(evaluate_features, (state, player), features),
    ensures
        r is Some <==> features is Ok,
        r matches Some(row) ==> (features matches Ok(f) ==> {
            &&& row.life == f.life
            &&& row.board_presence == f.board_presence
            &&& row.board_power == f.board_power
            &&& row.board_toughness == f.board_toughness
            &&& row.hand_size == f.hand_size
            &&& row.aggression == f.aggression
            &&& row.energy_offset == f.energy_offset
            &&& row.card_advantage - f.card_advantage_breakdown
                == facts.card_advantage_differential
            &&& row.zone_quality == facts.zone_quality
            &&& facts.synergy matches Some(v) ==> row.synergy == v
            &&& facts.synergy is None ==> row.synergy == 0
        }),
{
    if let Some(row) = r {
        let g = choose|g: EvalFeatures| #[trigger]
            eval::is_features(*state, player, g) && is_row(g, *facts, row);
        if let Ok(f) = features {
            assert(g == f);
        }
    }
}

/// Each entry of a row counts by its own weight: a whole point more of it
/// raises what `weighted_total` returns by exactly that weight, and the energy
/// offset by nothing.
pub proof fn law_each_entry_counts_by_its_weight(
    a: &FeatureRow,
    b: &FeatureRow,
    w: &EvalWeights,
    low: i128,
    high: i128,
    steps: (int, int, int, int, int),
    more: (int, int, int, int),
)
    requires
        call_ensures(FeatureRow::weighted_total, (a, w), low),
        call_ensures(FeatureRow::weighted_total, (b, w), high),
        b.life == a.life + steps.0 * 1_000_000,
        b.board_presence == a.board_presence + steps.1 * 1_000_000,
        b.board_power == a.board_power + steps.2 * 1_000_000,
        b.board_toughness == a.board_toughness + steps.3 * 1_000_000,
        b.hand_size == a.hand_size + steps.4 * 1_000_000,
        b.aggression == a.aggression + more.0 * 1_000_000,
        b.card_advantage == a.card_advantage + more.1 * 1_000_000,
        b.zone_quality == a.zone_quality + more.2 * 1_000_000,
        b.synergy == a.synergy + more.3 * 1_000_000,
    ensures
        high == low + steps.0 * w.life + steps.1 * w.board_presence + steps.2 * w.board_power
            + steps.3 * w.board_toughness + steps.4 * w.hand_size + more.0 * w.aggression + more.1
            * w.card_advantage + more.2 * w.zone_quality + more.3 * w.synergy,
{
    score::law_scaled_adds_whole_steps(a.life as int, w.life as int, steps.0);
    score::law_scaled_adds_whole_steps(
        a.board_presence as int,
        w.board_presence as int,
        steps.1,
    );
    score::law_scaled_adds_whole_steps(a.board_power as int, w.board_power as int, steps.2);
    score::law_scaled_adds_whole_steps(
        a.board_toughness as int,
        w.board_toughness as int,
        steps.3,
    );
    score::law_scaled_adds_whole_steps(a.hand_size as int, w.hand_size as int, steps.4);
    score::law_scaled_adds_whole_steps(a.aggression as int, w.aggression as int, more.0);
    score::law_scaled_adds_whole_steps(a.card_advantage as int, w.card_advantage as int, more.1);
    score::law_scaled_adds_whole_steps(a.zone_quality as int, w.zone_quality as int, more.2);
    score::law_scaled_adds_whole_steps(a.synergy as int, w.synergy as int, more.3);
}

/// A harvester starts with nothing, from the first seat; seeing a position
/// keeps the snapshot of an earlier turn, and takes one of this turn exactly
/// where nothing is on the stack and the game is open.
pub proof fn law_harvester_keeps_quiet_positions(
    h: &mut GameHarvester,
    state: &GameState,
    facts: &StrategicFacts,
    seed: u64,
    matchup_id: String,
    game_idx: usize,
    fresh: GameHarvester,
)
    requires
        call_ensures(GameHarvester::observe, (h, state, facts), ()),
        call_ensures(GameHarvester::new, (seed, matchup_id, game_idx), fresh),
    ensures
        fresh.player == PlayerId(0) && fresh.pending is None && fresh.buffer@.len() == 0,
        fresh.seed == seed && fresh.matchup_id == matchup_id && fresh.game_idx == game_idx,
        ({
            let (before, after) = (*old(h), *final(h));
            let open = state.stack@.len() == 0 && eval::terminal_score(*state, before.player)
                is None;
            let passed = before.pending matches Some(p) && p.0 < state.turn_number;
            &&& after.player == before.player
            &&& passed ==> after.buffer@ == before.buffer@.push(before.pending->Some_0)
            &&& !passed ==> after.buffer@ == before.buffer@
            &&& open ==> (after.pending matches Some(p) && p.0 == state.turn_number && is_row_of(
                *state,
                *facts,
                before.player,
                p.1,
            ))
            &&& !open && passed ==> after.pending is None
            &&& !open && !passed ==> after.pending == before.pending
        }),
{
}

/// What `finish` returns: nothing without a winner, else one record for each
/// kept turn, in order, won exactly where the harvested seat did.
pub proof fn law_finish_labels_what_was_kept(
    h: GameHarvester,
    winner: Option<PlayerId>,
    records: Vec<HarvestRecord>,
    i: int,
)
    requires
        call_ensures(GameHarvester::finish, (h, winner), records),
    ensures
        winner is None ==> records@.len() == 0,
        winner is Some ==> records@.len() == h.buffer@.len(),
        winner is Some && 0 <= i < records@.len() ==> {
            &&& records@[i].turn == h.buffer@[i].0
            &&& records@[i].features == h.buffer@[i].1
            &&& records@[i].won <==> winner == Some(h.player)
            &&& records@[i].seed == h.seed
            &&& records@[i].game_idx == h.game_idx
            &&& records@[i].matchup_id@ == h.matchup_id@
        },
{
}

} // verus!
