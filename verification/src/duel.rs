//! The duel runner: tallies, seeds, elimination order, log lines, and the
//! exit code of a comparison.

use vstd::prelude::*;
use vstd::string::*;

use crate::model::{PlayerId, Zone};
use crate::seqs;
use crate::text;
use crate::text::starts_with;

verus! {

/// After this many actions a duel is aborted.
pub const MAX_TOTAL_ACTIONS: usize = 10_000;

/// After this many actions a four-player game is given up.
pub const COMMANDER_MAX_TOTAL_ACTIONS: usize = 200_000;

// ---------------------------------------------------------------------------
// Running games
// ---------------------------------------------------------------------------

/// What a runner does after a batch of actions.
#[derive(Debug, Clone, Copy, PartialEq, Eq, Structural)]
pub enum RunnerStep {
    Continue { total_actions: usize },
    /// Nobody acted and the game is over.
    GameOver,
    /// Nobody acted though the game is not over.
    NoActions,
    /// The action limit was reached.
    LimitReached { total_actions: usize },
}

/// What a runner with the given limit does after a batch that took `taken`
/// actions.
pub fn after_batch(
    total_actions: usize,
    taken: usize,
    game_over: bool,
    limit: usize,
) -> (r: RunnerStep)
    requires
        total_actions + taken <= usize::MAX,
    ensures
        r == if taken == 0 {
            if game_over {
                RunnerStep::GameOver
            } else {
                RunnerStep::NoActions
            }
        } else if total_actions + taken >= limit {
            RunnerStep::LimitReached { total_actions: (total_actions + taken) as usize }
        } else {
            RunnerStep::Continue { total_actions: (total_actions + taken) as usize }
        },
{
    if taken == 0 {
        if game_over {
            return RunnerStep::GameOver;
        }
        return RunnerStep::NoActions;
    }
    let total: usize = total_actions + taken;
    if total >= limit {
        RunnerStep::LimitReached { total_actions: total }
    } else {
        RunnerStep::Continue { total_actions: total }
    }
}

/// Wins of the first seat, wins of anyone else, and games without a winner.
#[derive(Debug, Clone, Copy, PartialEq, Eq, Structural)]
pub struct DuelTally {
    pub p0_wins: usize,
    pub p1_wins: usize,
    pub draws: usize,
    pub total_turns: u64,
}

impl DuelTally {
    /// How many games were recorded.
    pub open spec fn games(self) -> int {
        self.p0_wins + self.p1_wins + self.draws
    }

    /// No game recorded.
    pub fn new() -> (r: Self)
        ensures
            r == (DuelTally { p0_wins: 0, p1_wins: 0, draws: 0, total_turns: 0 }),
    {
        DuelTally { p0_wins: 0, p1_wins: 0, draws: 0, total_turns: 0 }
    }

    /// Records a game. Exactly one of the three counts goes up.
    pub fn record(&mut self, winner: Option<PlayerId>, turns: u32)
        requires
            old(self).games() < usize::MAX,
            old(self).total_turns + turns <= u64::MAX,
        ensures
            final(self).total_turns == old(self).total_turns + turns,
            final(self).games() == old(self).games() + 1,
            *final(self) == (match winner {
                Some(w) => if w.0 == 0 {
                    DuelTally {
                        p0_wins: (old(self).p0_wins + 1) as usize,
                        total_turns: final(self).total_turns,
                        ..*old(self)
                    }
                } else {
                    DuelTally {
                        p1_wins: (old(self).p1_wins + 1) as usize,
                        total_turns: final(self).total_turns,
                        ..*old(self)
                    }
                },
                None => DuelTally {
                    draws: (old(self).draws + 1) as usize,
                    total_turns: final(self).total_turns,
                    ..*old(self)
                },
            }),
    {
        match winner {
            Some(w) => {
                if w.0 == 0 {
                    self.p0_wins += 1;
                } else {
                    self.p1_wins += 1;
                }
            },
            None => {
                self.draws += 1;
            },
        }
        self.total_turns += turns as u64;
    }
}

/// The cards of a deck whose entries count as given.
pub open spec fn deck_size(counts: Seq<u32>) -> int {
    seqs::sum(counts, |n: u32| n as int)
}

/// How many cards a deck has, where that is not the expected number.
pub fn validate_deck(counts: &Vec<u32>, expected: usize) -> (r: Option<u128>)
    ensures
        match r {
            Some(actual) => actual == deck_size(counts@) && deck_size(counts@) != expected,
            None => deck_size(counts@) == expected,
        },
{
    let ghost f = |n: u32| n as int;
    let mut actual: u128 = 0;
    let mut i: usize = 0;
    while i < counts.len()
        invariant
            f == |n: u32| n as int,
            i <= counts@.len(),
            actual == seqs::sum(counts@.take(i as int), f),
            0 <= actual <= 0x1_0000_0000 * i,
        decreases counts@.len() - i,
    {
        proof {
            seqs::lemma_sum_step(counts@, i as int, f);
        }
        actual += counts[i] as u128;
        i += 1;
    }
    assert(counts@.take(counts@.len() as int) =~= counts@);
    if actual != expected as u128 {
        Some(actual)
    } else {
        None
    }
}

// ---------------------------------------------------------------------------
// The commander suite
// ---------------------------------------------------------------------------

/// The seed of a game in which the candidate sits in `seat`: seats are ten
/// thousand seeds apart.
pub fn suite_seed(base_seed: u64, seat: u8, game_idx: u64) -> (r: u64)
    ensures
        r == (base_seed + seat * 10_000 + game_idx) % 0x1_0000_0000_0000_0000,
{
    base_seed.wrapping_add(seat as u64 * 10_000).wrapping_add(game_idx)
}

/// Two games of a suite with fewer than ten thousand games per seat never
/// share a seed.
pub proof fn law_suite_seeds_are_distinct(base: u64, s1: u8, g1: u64, s2: u8, g2: u64)
    requires
        s1 < 4,
        s2 < 4,
        g1 < 10_000,
        g2 < 10_000,
        (s1, g1) != (s2, g2),
    ensures
        (base + s1 * 10_000 + g1) % 0x1_0000_0000_0000_0000 != (base + s2 * 10_000 + g2)
            % 0x1_0000_0000_0000_0000,
{
}

/// The first turn at which each seat was seen to be eliminated.
#[derive(Debug)]
pub struct EliminationLog {
    pub turns: Vec<Option<u32>>,
}

/// Whether every one of `eliminated` has a seat.
pub open spec fn all_seated(eliminated: Seq<PlayerId>, seats: nat) -> bool {
    forall|i: int| 0 <= i < eliminated.len() ==> (#[trigger] eliminated[i]).0 < seats
}

/// The place of a player in the order of elimination.
pub open spec fn place_of(eliminated: Seq<PlayerId>, p: PlayerId) -> Option<int>
    decreases eliminated.len(),
{
    if eliminated.len() == 0 {
        None
    } else if eliminated[0] == p {
        Some(0int)
    } else {
        match place_of(eliminated.drop_first(), p) {
            Some(i) => Some(i + 1),
            None => None,
        }
    }
}

impl EliminationLog {
    /// Nobody eliminated yet.
    pub fn new(seats: usize) -> (r: Self)
        ensures
            r.turns@ == Seq::new(seats as nat, |i: int| None::<u32>),
    {
        let mut turns: Vec<Option<u32>> = Vec::new();
        let mut i: usize = 0;
        while i < seats
            invariant
                i <= seats,
                turns@ == Seq::new(i as nat, |k: int| None::<u32>),
            decreases seats - i,
        {
            turns.push(None);
            i += 1;
        }
        EliminationLog { turns }
    }

    /// Sees who is eliminated on a turn. A seat that was seen before keeps its
    /// turn.
    pub fn observe(&mut self, eliminated: &Vec<PlayerId>, turn: u32)
        requires
            all_seated(eliminated@, old(self).turns@.len()),
        ensures
            final(self).turns@.len() == old(self).turns@.len(),
            forall|s: u8|
                s < old(self).turns@.len() ==> #[trigger] final(self).turns@[s as int] == (
                if old(self).turns@[s as int] is None && eliminated@.contains(PlayerId(s)) {
                    Some(turn)
                } else {
                    old(self).turns@[s as int]
                }),
    {
        let mut i: usize = 0;
        assert(eliminated@.take(0) =~= Seq::<PlayerId>::empty());
        while i < eliminated.len()
            invariant
                i <= eliminated@.len(),
                self.turns@.len() == old(self).turns@.len(),
                all_seated(eliminated@, old(self).turns@.len()),
                forall|s: u8|
                    s < old(self).turns@.len() ==> #[trigger] self.turns@[s as int] == (if old(
                        self,
                    ).turns@[s as int] is None && eliminated@.take(i as int).contains(
                        PlayerId(s),
                    ) {
                        Some(turn)
                    } else {
                        old(self).turns@[s as int]
                    }),
            decreases eliminated@.len() - i,
        {
            let p = eliminated[i];
            let seat: usize = p.0 as usize;
            let ghost before = self.turns@;
            if self.turns[seat].is_none() {
                self.turns.set(seat, Some(turn));
            }
            proof {
                let head = eliminated@.take(i as int);
                let next = eliminated@.take(i + 1);
                assert(next =~= head.push(p));
                assert forall|s: u8| s < old(self).turns@.len() implies #[trigger] self.turns@[s as int]
                    == (if old(self).turns@[s as int] is None && next.contains(PlayerId(s)) {
                    Some(turn)
                } else {
                    old(self).turns@[s as int]
                }) by {
                    if PlayerId(s) == p {
                        assert(next[i as int] == p);
                        assert(next.contains(p));
                        assert(before[s as int] == self.turns@[s as int] || before[s as int] is None);
                    } else {
                        if head.contains(PlayerId(s)) {
                            let k = head.index_of(PlayerId(s));
                            assert(next[k] == PlayerId(s));
                        }
                        if next.contains(PlayerId(s)) {
                            let k = next.index_of(PlayerId(s));
                            assert(head[k] == PlayerId(s));
                        }
                        assert(self.turns@[s as int] == before[s as int]);
                    }
                }
            }
            i += 1;
        }
        assert(eliminated@.take(eliminated@.len() as int) =~= eliminated@);
    }

    /// The turn up to which a seat survived: its elimination, else the last
    /// turn of the game.
    pub fn survival_turn(&self, candidate: PlayerId, last_turn: u32) -> (r: u32)
        requires
            candidate.0 < self.turns@.len(),
        ensures
            r == match self.turns@[candidate.0 as int] {
                Some(t) => t,
                None => last_turn,
            },
    {
        match self.turns[candidate.0 as usize] {
            Some(t) => t,
            None => last_turn,
        }
    }
}

/// Where a candidate came in the order of elimination: one for the first to
/// go, four for a winner or survivor.
pub fn elimination_order(eliminated: &Vec<PlayerId>, candidate: PlayerId) -> (r: u8)
    requires
        eliminated@.len() <= 255,
    ensures
        r == match place_of(eliminated@, candidate) {
            Some(i) => i + 1,
            None => 4,
        },
{
    let mut i: usize = 0;
    assert(eliminated@.skip(0) =~= eliminated@);
    while i < eliminated.len()
        invariant
            i <= eliminated@.len(),
            eliminated@.len() <= 255,
            place_of(eliminated@, candidate) == (match place_of(
                eliminated@.skip(i as int),
                candidate,
            ) {
                Some(k) => Some(k + i),
                None => None,
            }),
        decreases eliminated@.len() - i,
    {
        assert(eliminated@.skip(i as int).drop_first() =~= eliminated@.skip(i + 1));
        if eliminated[i] == candidate {
            return i as u8 + 1;
        }
        i += 1;
    }
    4
}

/// How a four-player game went for the candidate.
#[derive(Debug, Clone, Copy, PartialEq, Eq, Structural)]
pub struct CommanderGameResult {
    pub winner: Option<PlayerId>,
    pub turns: u32,
    pub candidate_survival_turn: u32,
    pub candidate_elimination_order: u8,
}

/// How a candidate did in one seat.
#[derive(Debug, Clone, Copy, PartialEq, Eq, Structural)]
pub struct SeatTally {
    pub wins: u64,
    pub total_survival_turns: u64,
    pub total_elimination_order: u64,
}

impl SeatTally {
    /// No game recorded.
    pub fn new() -> (r: Self)
        ensures
            r == (SeatTally { wins: 0, total_survival_turns: 0, total_elimination_order: 0 }),
    {
        SeatTally { wins: 0, total_survival_turns: 0, total_elimination_order: 0 }
    }

    /// Records a game of the candidate.
    pub fn record(&mut self, candidate: PlayerId, result: &CommanderGameResult)
        requires
            old(self).wins < u64::MAX,
            old(self).total_survival_turns + result.candidate_survival_turn <= u64::MAX,
            old(self).total_elimination_order + result.candidate_elimination_order <= u64::MAX,
        ensures
            final(self).wins == old(self).wins + if result.winner == Some(candidate) {
                1int
            } else {
                0int
            },
            final(self).total_survival_turns == old(self).total_survival_turns
                + result.candidate_survival_turn,
            final(self).total_elimination_order == old(self).total_elimination_order
                + result.candidate_elimination_order,
    {
        if let Some(w) = result.winner {
            if w == candidate {
                self.wins += 1;
            }
        }
        self.total_survival_turns += result.candidate_survival_turn as u64;
        self.total_elimination_order += result.candidate_elimination_order as u64;
    }
}

/// An average over `games` games in thousandths, rounded to the nearest one
/// and up where two are equally near. No games count as one.
pub fn rounded(total: u64, games: u64) -> (r: u128)
    ensures
        ({
            let n = if games == 0 {
                1int
            } else {
                games as int
            };
            r == (2000 * total + n) / (2 * n)
        }),
{
    let n: u128 = if games == 0 {
        1
    } else {
        games as u128
    };
    (2000 * total as u128 + n) / (2 * n)
}

/// A rounded average is within half a thousandth of the exact one.
pub proof fn law_rounding_is_to_the_nearest(total: int, n: int)
    requires
        n > 0,
        total >= 0,
    ensures
        -n <= 2 * n * ((2000 * total + n) / (2 * n)) - 2000 * total <= n,
{
    let x = 2000 * total + n;
    let d = 2 * n;
    assert(d * (x / d) <= x < d * (x / d) + d) by (nonlinear_arith)
        requires
            d > 0,
    ;
    assert(2 * n * (x / d) == d * (x / d));
}

// ---------------------------------------------------------------------------
// Log lines
// ---------------------------------------------------------------------------

#[derive(Debug, Clone, Copy, PartialEq, Eq, Structural)]
pub enum LogCategory {
    Stack,
    Combat,
    Life,
    Destroy,
    Special,
    Other,
}

/// A piece of a log line.
#[derive(Debug)]
pub enum LogSegment {
    Text(String),
    CardName { name: String },
    PlayerName { name: String },
    Number(i64),
    Mana(String),
    Zone(Zone),
    Keyword(String),
}

/// A log line.
#[derive(Debug)]
pub struct GameLogEntry {
    pub turn: u32,
    pub category: LogCategory,
    pub segments: Vec<LogSegment>,
}

/// Whether a log line is shown: all of them in a verbose run, else those that
/// tell the story of the game.
pub fn should_show(entry: &GameLogEntry, verbose: bool) -> (r: bool)
    ensures
        r == (verbose || entry.category != LogCategory::Other),
{
    verbose || match entry.category {
        LogCategory::Stack => true,
        LogCategory::Combat => true,
        LogCategory::Life => true,
        LogCategory::Destroy => true,
        LogCategory::Special => true,
        LogCategory::Other => false,
    }
}

/// A decimal digit.
pub open spec fn digit_char(d: nat) -> char {
    (48 + d) as char
}

/// The decimal digits of a number, without leading zeros.
pub open spec fn decimal_digits(n: nat) -> Seq<char>
    decreases n,
{
    if n < 10 {
        seq![digit_char(n)]
    } else {
        decimal_digits(n / 10).push(digit_char(n % 10))
    }
}

/// A number as it is written.
pub open spec fn decimal(n: int) -> Seq<char> {
    if n < 0 {
        "-"@ + decimal_digits((-n) as nat)
    } else {
        decimal_digits(n as nat)
    }
}

/// The name of a zone.
pub open spec fn zone_text(z: Zone) -> Seq<char> {
    match z {
        Zone::Battlefield => "Battlefield"@,
        Zone::Hand => "Hand"@,
        Zone::Library => "Library"@,
        Zone::Graveyard => "Graveyard"@,
        Zone::Exile => "Exile"@,
        Zone::Stack => "Stack"@,
        Zone::Command => "Command"@,
    }
}

/// A piece of a log line as it is written.
pub open spec fn segment_text(s: LogSegment) -> Seq<char> {
    match s {
        LogSegment::Text(t) => t@,
        LogSegment::CardName { name } => name@,
        LogSegment::PlayerName { name } => name@,
        LogSegment::Number(n) => decimal(n as int),
        LogSegment::Mana(t) => t@,
        LogSegment::Zone(z) => zone_text(z),
        LogSegment::Keyword(t) => t@,
    }
}

/// The pieces of a log line, one after the other.
pub open spec fn joined(segments: Seq<LogSegment>) -> Seq<char>
    decreases segments.len(),
{
    if segments.len() == 0 {
        Seq::empty()
    } else {
        joined(segments.drop_last()) + segment_text(segments.last())
    }
}

/// Writing a number and reading it gives the number.
pub proof fn law_decimal_is_read_back(n: nat)
    ensures
        text::digits_value(decimal_digits(n)) == Some(n),
        decimal_digits(n).len() > 0,
    decreases n,
{
    let s = decimal_digits(n);
    if n < 10 {
        assert(s.drop_last() =~= Seq::<char>::empty());
        assert(text::digit(s.last()) == Some(n));
        assert(text::digits_value(s.drop_last()) == Some(0nat));
    } else {
        law_decimal_is_read_back(n / 10);
        assert(s.drop_last() =~= decimal_digits(n / 10));
        assert(text::digit(s.last()) == Some(n % 10));
    }
}

/// A decimal digit.
fn digit_text(d: u64) -> (r: &'static str)
    requires
        d < 10,
    ensures
        r@ == seq![digit_char(d as nat)],
{
    proof {
        reveal_strlit("0");
        reveal_strlit("1");
        reveal_strlit("2");
        reveal_strlit("3");
        reveal_strlit("4");
        reveal_strlit("5");
        reveal_strlit("6");
        reveal_strlit("7");
        reveal_strlit("8");
        reveal_strlit("9");
    }
    let r = match d {
        0 => "0",
        1 => "1",
        2 => "2",
        3 => "3",
        4 => "4",
        5 => "5",
        6 => "6",
        7 => "7",
        8 => "8",
        _ => "9",
    };
    assert(r@ =~= seq![digit_char(d as nat)]);
    r
}

/// The decimal digits of a number.
pub fn render_number(n: u64) -> (r: String)
    ensures
        r@ == decimal_digits(n as nat),
    decreases n,
{
    if n < 10 {
        digit_text(n).to_owned()
    } else {
        let head = render_number(n / 10);
        let r = head.concat(digit_text(n % 10));
        assert(r@ =~= decimal_digits((n / 10) as nat).push(digit_char((n % 10) as nat)));
        r
    }
}

/// A number as it is written.
pub fn render_signed(n: i64) -> (r: String)
    ensures
        r@ == decimal(n as int),
{
    if n < 0 {
        let magnitude: u64 = (-(n as i128)) as u64;
        "-".to_owned().concat(render_number(magnitude).as_str())
    } else {
        render_number(n as u64)
    }
}

/// The name of a zone.
fn zone_name(z: Zone) -> (r: &'static str)
    ensures
        r@ == zone_text(z),
{
    match z {
        Zone::Battlefield => "Battlefield",
        Zone::Hand => "Hand",
        Zone::Library => "Library",
        Zone::Graveyard => "Graveyard",
        Zone::Exile => "Exile",
        Zone::Stack => "Stack",
        Zone::Command => "Command",
    }
}

/// A log line as it is written: its pieces, one after the other.
pub fn render_log_entry(entry: &GameLogEntry) -> (r: String)
    ensures
        r@ == joined(entry.segments@),
{
    let segments = &entry.segments;
    let mut line = String::new();
    let mut i: usize = 0;
    while i < segments.len()
        invariant
            i <= segments@.len(),
            line@ == joined(segments@.take(i as int)),
        decreases segments@.len() - i,
    {
        assert(segments@.take(i + 1).drop_last() =~= segments@.take(i as int));
        match &segments[i] {
            LogSegment::Text(t) => line.append(t.as_str()),
            LogSegment::CardName { name } => line.append(name.as_str()),
            LogSegment::PlayerName { name } => line.append(name.as_str()),
            LogSegment::Number(n) => line.append(render_signed(*n).as_str()),
            LogSegment::Mana(t) => line.append(t.as_str()),
            LogSegment::Zone(z) => line.append(zone_name(*z)),
            LogSegment::Keyword(t) => line.append(t.as_str()),
        }
        i += 1;
    }
    assert(segments@.take(segments@.len() as int) =~= segments@);
    line
}

// ---------------------------------------------------------------------------
// Comparing two reports
// ---------------------------------------------------------------------------

/// What is wrong with the arguments of a comparison.
#[derive(Debug, PartialEq, Eq)]
pub enum CompareArgsError {
    /// Fewer than two reports.
    Usage,
    /// An option, of which there are none.
    UnknownOption { option: String },
}

/// Whether a text is an option.
pub open spec fn is_option(s: Seq<char>) -> bool {
    "--"@.is_prefix_of(s)
}

/// Checks the arguments of a comparison, the subcommand first: two reports,
/// and no option after them. The first option is reported.
pub fn check_compare_args(args: &Vec<String>) -> (r: Result<(), CompareArgsError>)
    ensures
        match r {
            Ok(_) => args@.len() >= 3 && forall|i: int|
                3 <= i < args@.len() ==> !is_option((#[trigger] args@[i])@),
            Err(CompareArgsError::Usage) => args@.len() < 3,
            Err(CompareArgsError::UnknownOption { option }) => args@.len() >= 3 && exists|i: int|
                3 <= i < args@.len() && option@ == (#[trigger] args@[i])@ && is_option(option@)
                    && forall|j: int| 3 <= j < i ==> !is_option((#[trigger] args@[j])@),
        },
{
    if args.len() < 3 {
        return Err(CompareArgsError::Usage);
    }
    let mut i: usize = 3;
    while i < args.len()
        invariant
            3 <= i <= args@.len(),
            forall|j: int| 3 <= j < i ==> !is_option((#[trigger] args@[j])@),
        decreases args@.len() - i,
    {
        if starts_with(args[i].as_str(), "--") {
            let option = args[i].clone();
            assert(option@ == args@[i as int]@);
            return Err(CompareArgsError::UnknownOption { option });
        }
        i += 1;
    }
    Ok(())
}

/// How a comparison went.
#[derive(Debug, Clone, Copy, PartialEq, Eq, Structural)]
pub enum CompareOutcome {
    /// A report could not be loaded.
    LoadFailed,
    /// The reports could not be compared.
    CompareFailed,
    /// The reports were compared; some matchup may have failed.
    Compared { any_fail: bool },
}

/// The exit code of a comparison.
pub fn compare_exit_code(outcome: CompareOutcome) -> (r: i32)
    ensures
        r == match outcome {
            CompareOutcome::LoadFailed => 2i32,
            CompareOutcome::CompareFailed => 2i32,
            CompareOutcome::Compared { any_fail } => if any_fail {
                1i32
            } else {
                0i32
            },
        },
{
    match outcome {
        CompareOutcome::LoadFailed => 2,
        CompareOutcome::CompareFailed => 2,
        CompareOutcome::Compared { any_fail } => if any_fail {
            1
        } else {
            0
        },
    }
}

// ---------------------------------------------------------------------------
// What the runner promises
// ---------------------------------------------------------------------------

/// A runner goes on exactly where somebody acted and the limit is not reached,
/// and then counts every action once; where nobody acted, the game is over or
/// stuck.
pub proof fn law_runner_stops_at_its_limit(
    total_actions: usize,
    taken: usize,
    game_over: bool,
    limit: usize,
    r: RunnerStep,
)
    requires
        call_ensures(after_batch, (total_actions, taken, game_over, limit), r),
        total_actions + taken <= usize::MAX,
    ensures
        r is GameOver <==> taken == 0 && game_over,
        r is NoActions <==> taken == 0 && !game_over,
        r is LimitReached <==> taken > 0 && total_actions + taken >= limit,
        r is Continue <==> taken > 0 && total_actions + taken < limit,
        r matches RunnerStep::Continue { total_actions: n } ==> n - taken == total_actions,
        r matches RunnerStep::LimitReached { total_actions: n } ==> n - taken == total_actions,
{
}

/// A tally starts at nothing and counts each game once: for the first seat
/// where it won, for the others where one of them did, as a draw where nobody
/// did; the turns add up.
pub proof fn law_tally_counts_each_game_once(
    t: &mut DuelTally,
    winner: Option<PlayerId>,
    turns: u32,
    empty: DuelTally,
)
    requires
        call_ensures(DuelTally::record, (t, winner, turns), ()),
        call_ensures(DuelTally::new, (), empty),
        old(t).games() < usize::MAX,
    ensures
        empty.games() == 0 && empty.total_turns == 0 && empty.p0_wins == 0 && empty.p1_wins == 0,
        final(t).p0_wins - old(t).p0_wins == (if winner == Some(PlayerId(0)) {
            1int
        } else {
            0
        }),
        final(t).draws - old(t).draws == (if winner is None {
            1int
        } else {
            0
        }),
        final(t).p1_wins - old(t).p1_wins == (if winner is Some && winner != Some(PlayerId(0)) {
            1int
        } else {
            0
        }),
        final(t).total_turns - old(t).total_turns == turns,
        final(t).games() == old(t).games() + 1,
{
}

/// One more entry adds its count to the size of a deck, and a deck is refused
/// exactly where its size is not the expected one, with its actual size.
pub proof fn law_deck_of_another_size_is_refused(
    counts: &Vec<u32>,
    expected: usize,
    r: Option<u128>,
    more: Seq<u32>,
    n: u32,
)
    requires
        call_ensures(validate_deck, (counts, expected), r),
    ensures
        r is None <==> deck_size(counts@) == expected,
        r matches Some(actual) ==> actual == deck_size(counts@),
        deck_size(more.push(n)) == deck_size(more) + n,
        deck_size(Seq::<u32>::empty()) == 0,
{
    seqs::lemma_sum_push(more, n, |n: u32| n as int);
}

/// The seeds that `suite_seed` returns for two different games of a suite with
/// fewer than ten thousand games in each of four seats are different; the
/// first game of the first seat has the base seed, and each next game the next
/// seed.
pub proof fn law_suite_games_have_their_own_seeds(
    base: u64,
    s1: u8,
    g1: u64,
    s2: u8,
    g2: u64,
    r1: u64,
    r2: u64,
)
    requires
        s1 < 4,
        s2 < 4,
        g1 < 10_000,
        g2 < 10_000,
        call_ensures(suite_seed, (base, s1, g1), r1),
        call_ensures(suite_seed, (base, s2, g2), r2),
    ensures
        (s1, g1) != (s2, g2) ==> r1 != r2,
        s1 == 0 && g1 == 0 ==> r1 == base,
        s1 == s2 && g2 == g1 + 1 && r1 < u64::MAX ==> r2 == r1 + 1,
        s2 == s1 + 1 && g1 == g2 && r1 <= u64::MAX - 10_000 ==> r2 == r1 + 10_000,
{
    if (s1, g1) != (s2, g2) {
        law_suite_seeds_are_distinct(base, s1, g1, s2, g2);
    }
}

/// A seat that is seen eliminated for the first time gets the turn of that
/// look, one that was seen before keeps its turn, and the others stay; a new
/// log has seen nobody.
pub proof fn law_elimination_keeps_its_first_turn(
    log: &mut EliminationLog,
    eliminated: &Vec<PlayerId>,
    turn: u32,
    s: u8,
    seats: usize,
    fresh: EliminationLog,
    i: int,
)
    requires
        call_ensures(EliminationLog::observe, (log, eliminated, turn), ()),
        call_ensures(EliminationLog::new, (seats,), fresh),
        s < old(log).turns@.len(),
    ensures
        final(log).turns@.len() == old(log).turns@.len(),
        ({
            let (before, after) = (old(log).turns@[s as int], final(log).turns@[s as int]);
            &&& before is Some ==> after == before
            &&& before is None && eliminated@.contains(PlayerId(s)) ==> after == Some(turn)
            &&& before is None && !eliminated@.contains(PlayerId(s)) ==> after is None
        }),
        fresh.turns@.len() == seats,
        0 <= i < seats ==> fresh.turns@[i] is None,
{
}

/// A seat survived up to its elimination, or to the end where it was not
/// eliminated.
pub proof fn law_survivors_see_the_last_turn(
    log: &EliminationLog,
    candidate: PlayerId,
    last_turn: u32,
    r: u32,
)
    requires
        candidate.0 < log.turns@.len(),
        call_ensures(EliminationLog::survival_turn, (log, candidate, last_turn), r),
    ensures
        log.turns@[candidate.0 as int] == Some(r) || (log.turns@[candidate.0 as int] is None && r
            == last_turn),
{
}

/// The place that `elimination_order` returns is that of the candidate, counted
/// from one, and four for a candidate who was not eliminated.
pub proof fn law_elimination_order_counts_from_one(
    eliminated: &Vec<PlayerId>,
    candidate: PlayerId,
    r: u8,
)
    requires
        eliminated@.len() <= 255,
        call_ensures(elimination_order, (eliminated, candidate), r),
    ensures
        eliminated@.contains(candidate) ==> 1 <= r <= eliminated@.len() && eliminated@[r - 1]
            == candidate && forall|j: int| 0 <= j < r - 1 ==> eliminated@[j] != candidate,
        !eliminated@.contains(candidate) ==> r == 4,
{
    lemma_place(eliminated@, candidate);
}

/// A place is that of the first occurrence.
proof fn lemma_place(eliminated: Seq<PlayerId>, p: PlayerId)
    ensures
        match place_of(eliminated, p) {
            Some(i) => 0 <= i < eliminated.len() && eliminated[i] == p && forall|j: int|
                0 <= j < i ==> eliminated[j] != p,
            None => !eliminated.contains(p),
        },
    decreases eliminated.len(),
{
    if eliminated.len() > 0 && eliminated[0] != p {
        let rest = eliminated.drop_first();
        lemma_place(rest, p);
        match place_of(rest, p) {
            Some(i) => {
                assert forall|j: int| 0 <= j < i + 1 implies eliminated[j] != p by {
                    if j > 0 {
                        assert(rest[j - 1] != p);
                    }
                }
            },
            None => {
                assert forall|j: int| 0 <= j < eliminated.len() implies eliminated[j] != p by {
                    if j > 0 {
                        assert(rest.contains(rest[j - 1]));
                    }
                }
            },
        }
    }
}

/// A seat's tally starts at nothing, counts a win exactly where the candidate
/// won, and adds up turns and places.
pub proof fn law_seat_tally_adds_up(
    t: &mut SeatTally,
    candidate: PlayerId,
    result: &CommanderGameResult,
    empty: SeatTally,
)
    requires
        call_ensures(SeatTally::record, (t, candidate, result), ()),
        call_ensures(SeatTally::new, (), empty),
    ensures
        empty.wins == 0 && empty.total_survival_turns == 0 && empty.total_elimination_order == 0,
        result.winner == Some(candidate) ==> final(t).wins == old(t).wins + 1,
        result.winner != Some(candidate) ==> final(t).wins == old(t).wins,
        final(t).total_survival_turns - old(t).total_survival_turns
            == result.candidate_survival_turn,
        final(t).total_elimination_order - old(t).total_elimination_order
            == result.candidate_elimination_order,
{
}

/// What `rounded` returns is within half a thousandth of the exact average, and
/// the upper neighbour where the average lies half way; no games count as one.
pub proof fn law_rounded_returns_the_nearest(total: u64, games: u64, r: u128)
    requires
        call_ensures(rounded, (total, games), r),
    ensures
        games > 0 ==> 2000 * total - games < 2 * games * r <= 2000 * total + games,
        games == 0 ==> r == 1000 * total,
{
    if games > 0 {
        let (t, n) = (total as int, games as int);
        let x = 2000 * t + n;
        let d = 2 * n;
        assert(d * (x / d) <= x < d * (x / d) + d) by (nonlinear_arith)
            requires
                d > 0,
        ;
        assert(2 * n * (x / d) == d * (x / d));
        assert(2 * games * r == d * (x / d)) by (nonlinear_arith)
            requires
                r == x / d,
                d == 2 * n,
                games == n,
        ;
    } else {
        assert((2000 * total + 1) / 2int == 1000 * total);
        assert(r == (2000 * total + 1) / (2 * 1int));
    }
}

/// A log line is hidden exactly where the run is not verbose and the line does
/// not belong to the story.
pub proof fn law_story_is_always_shown(entry: &GameLogEntry, verbose: bool, r: bool)
    requires
        call_ensures(should_show, (entry, verbose), r),
    ensures
        verbose ==> r,
        entry.category is Stack || entry.category is Combat || entry.category is Life
            || entry.category is Destroy || entry.category is Special ==> r,
        !verbose && entry.category is Other ==> !r,
{
}

/// A log line is written piece by piece: texts and names as they are, numbers
/// in decimals, zones by name.
pub proof fn law_log_lines_are_their_pieces(
    entry: &GameLogEntry,
    line: String,
    front: Seq<LogSegment>,
    last: LogSegment,
)
    requires
        call_ensures(render_log_entry, (entry,), line),
        entry.segments@ == front.push(last),
    ensures
        line@ == joined(front) + (match last {
            LogSegment::Text(t) => t@,
            LogSegment::CardName { name } => name@,
            LogSegment::PlayerName { name } => name@,
            LogSegment::Number(n) => decimal(n as int),
            LogSegment::Mana(t) => t@,
            LogSegment::Zone(z) => zone_text(z),
            LogSegment::Keyword(t) => t@,
        }),
        joined(Seq::<LogSegment>::empty()).len() == 0,
{
    assert(front.push(last).drop_last() =~= front);
}

/// A zone is written by its name.
pub proof fn law_zones_are_written_by_name(z: Zone)
    ensures
        z is Battlefield ==> zone_text(z) == "Battlefield"@,
        z is Hand ==> zone_text(z) == "Hand"@,
        z is Library ==> zone_text(z) == "Library"@,
        z is Graveyard ==> zone_text(z) == "Graveyard"@,
        z is Exile ==> zone_text(z) == "Exile"@,
        z is Stack ==> zone_text(z) == "Stack"@,
        z is Command ==> zone_text(z) == "Command"@,
{
}

/// A number that is written is read back as the number, and a negative one has
/// a minus sign before its magnitude.
pub proof fn law_written_numbers_are_read_back(n: u64, k: i64, plain: String, signed: String)
    requires
        call_ensures(render_number, (n,), plain),
        call_ensures(render_signed, (k,), signed),
    ensures
        text::digits_value(plain@) == Some(n as nat),
        plain@.len() > 0,
        k >= 0 ==> text::digits_value(signed@) == Some(k as nat),
        k < 0 ==> signed@[0] == '-' && text::digits_value(signed@.skip(1)) == Some(
            (-(k as int)) as nat,
        ),
{
    law_decimal_is_read_back(n as nat);
    reveal_strlit("-");
    if k >= 0 {
        law_decimal_is_read_back(k as nat);
    } else {
        law_decimal_is_read_back((-(k as int)) as nat);
        assert(signed@.skip(1) =~= decimal_digits((-(k as int)) as nat));
    }
}

/// The arguments of a comparison are accepted exactly where there are two
/// reports and no option behind them; the option that is reported is the first.
pub proof fn law_comparison_takes_no_options(
    args: &Vec<String>,
    r: Result<(), CompareArgsError>,
    i: int,
)
    requires
        call_ensures(check_compare_args, (args,), r),
        3 <= i < args@.len(),
        forall|j: int| 3 <= j < i ==> !"--"@.is_prefix_of((#[trigger] args@[j])@),
    ensures
        "--"@.is_prefix_of(args@[i]@) ==> (r matches Err(CompareArgsError::UnknownOption { option })
            && option@ == args@[i]@),
        i == args@.len() - 1 && !"--"@.is_prefix_of(args@[i]@) ==> r is Ok,
{
    if let Err(CompareArgsError::UnknownOption { option }) = r {
        let k = choose|k: int|
            3 <= k < args@.len() && option@ == (#[trigger] args@[k])@ && is_option(option@)
                && forall|j: int| 3 <= j < k ==> !is_option((#[trigger] args@[j])@);
        if k < i {
            assert(!"--"@.is_prefix_of(args@[k]@));
        }
        if i < k {
            assert(!is_option(args@[i]@));
        }
    }
    if r is Ok {
        assert(!is_option(args@[i]@));
    }
}

/// Fewer than two reports are a usage error.
pub proof fn law_comparison_needs_two_reports(args: &Vec<String>, r: Result<(), CompareArgsError>)
    requires
        call_ensures(check_compare_args, (args,), r),
    ensures
        r matches Err(CompareArgsError::Usage) <==> args@.len() < 3,
        args@.len() == 3 ==> r is Ok,
{
}

/// A comparison exits with zero exactly where the reports were compared and
/// nothing failed, with one where a matchup failed, with two where there was
/// nothing to compare.
pub proof fn law_comparison_exit_codes(outcome: CompareOutcome, r: i32)
    requires
        call_ensures(compare_exit_code, (outcome,), r),
    ensures
        r == 0 <==> outcome == (CompareOutcome::Compared { any_fail: false }),
        r == 1 <==> outcome == (CompareOutcome::Compared { any_fail: true }),
        r == 2 <==> outcome is LoadFailed || outcome is CompareFailed,
{
}

} // verus!
