//! The four-player runner: its command-line values, its games file, and what
//! it makes of a finished game.

use vstd::prelude::*;
use vstd::string::*;

use crate::config;
use crate::config::AiDifficulty;
use crate::duel;
use crate::duel::{render_number, render_signed};
use crate::model::{GameState, ObjectId, Player, PlayerId, WaitingFor};
use crate::seqs;
use crate::text;
use crate::text::{debug_text, find_char, parse_u64, parse_usize, trim};

verus! {

/// How many seats the runner fills.
pub const SEATS: usize = 4;

// ---------------------------------------------------------------------------
// Command-line values
// ---------------------------------------------------------------------------

/// The labels that are accepted, as a message lists them.
pub open spec fn accepted_labels() -> Seq<char> {
    "VeryEasy, Easy, Medium, Hard, VeryHard, CEDH"@
}

/// The message for an unknown difficulty, which is given in quotes.
pub open spec fn unknown_difficulty_text(quoted: Seq<char>) -> Seq<char> {
    "error: unrecognized --difficulty "@ + quoted + "; accepted values: "@ + accepted_labels()
}

/// The message for an unknown difficulty, which is given in quotes.
pub fn unknown_difficulty_message(quoted: &str) -> (r: String)
    ensures
        r@ == unknown_difficulty_text(quoted@),
{
    "error: unrecognized --difficulty ".to_owned().concat(quoted).concat(
        "; accepted values: ",
    ).concat("VeryEasy, Easy, Medium, Hard, VeryHard, CEDH")
}

/// A difficulty label. Unlike [`AiDifficulty::from_label`], an unknown label is
/// an error: a garbled one must not quietly play at another strength.
pub fn parse_difficulty(s: &str) -> (r: Result<AiDifficulty, String>)
    ensures
        match r {
            Ok(d) => config::labelled(s@) == Some(d),
            Err(e) => config::labelled(s@) is None && e@ == unknown_difficulty_text(
                text::debug_form(s@),
            ),
        },
{
    match AiDifficulty::accepted(s) {
        Some(d) => Ok(d),
        None => Err(unknown_difficulty_message(debug_text(s).as_str())),
    }
}

/// The message for a bad action cap, which is given in quotes.
pub open spec fn bad_cap_text(quoted: Seq<char>) -> Seq<char> {
    "error: --action-cap "@ + quoted + " must be a positive integer"@
}

/// The message for a bad action cap, which is given in quotes.
pub fn bad_cap_message(quoted: &str) -> (r: String)
    ensures
        r@ == bad_cap_text(quoted@),
{
    "error: --action-cap ".to_owned().concat(quoted).concat(" must be a positive integer")
}

/// The action cap that a text asks for: a positive whole number.
pub open spec fn cap_asked(s: Seq<char>) -> Option<nat> {
    match text::whole_number(text::trimmed(s), usize::MAX as nat) {
        Some(n) => if n > 0 {
            Some(n)
        } else {
            None
        },
        None => None,
    }
}

/// An action cap: a positive whole number. Anything else is an error.
pub fn parse_action_cap_checked(s: &str) -> (r: Result<usize, String>)
    ensures
        match r {
            Ok(n) => cap_asked(s@) == Some(n as nat),
            Err(e) => cap_asked(s@) is None && e@ == bad_cap_text(text::debug_form(s@)),
        },
{
    if let Some(n) = parse_usize(trim(s)) {
        if n > 0 {
            return Ok(n);
        }
    }
    Err(bad_cap_message(debug_text(s).as_str()))
}

/// The seat that a flag suffix names.
pub open spec fn seat_named(suffix: Seq<char>) -> Option<nat> {
    match text::whole_number(suffix, usize::MAX as nat) {
        Some(i) => if i < SEATS {
            Some(i)
        } else {
            None
        },
        None => None,
    }
}

/// The digit of a seat.
pub open spec fn seat_digit(seat: nat) -> Seq<char> {
    if seat == 0 {
        "0"@
    } else if seat == 1 {
        "1"@
    } else if seat == 2 {
        "2"@
    } else {
        "3"@
    }
}

/// The digit of a seat.
fn seat_text(seat: usize) -> (r: &'static str)
    requires
        seat < SEATS,
    ensures
        r@ == seat_digit(seat as nat),
{
    if seat == 0 {
        "0"
    } else if seat == 1 {
        "1"
    } else if seat == 2 {
        "2"
    } else {
        "3"
    }
}

/// The seat and the label of a per-seat difficulty flag. `suffix` is what
/// follows the flag's stem, `value` the argument after the flag. A suffix that
/// names no seat and a missing label are errors.
pub fn parse_seat_override<'a>(
    suffix: &str,
    value: Option<&'a str>,
) -> (r: Result<(usize, &'a str), String>)
    ensures
        match r {
            Ok((seat, label)) => seat_named(suffix@) == Some(seat as nat) && value == Some(label),
            Err(e) => match seat_named(suffix@) {
                None => e@ == "error: --difficulty-p"@ + suffix@
                    + ": seat index must be 0..=3"@,
                Some(seat) => value is None && e@ == "error: --difficulty-p"@ + seat_digit(seat)
                    + " requires a difficulty label"@,
            },
        },
        r is Ok == (seat_named(suffix@) is Some && value is Some),
{
    let seat: usize = match parse_usize(suffix) {
        Some(i) => {
            if i >= SEATS {
                return Err(bad_seat(suffix));
            }
            i
        },
        None => return Err(bad_seat(suffix)),
    };
    match value {
        Some(label) => Ok((seat, label)),
        None => Err(
            "error: --difficulty-p".to_owned().concat(seat_text(seat)).concat(
                " requires a difficulty label",
            ),
        ),
    }
}

/// The message for a suffix that names no seat.
fn bad_seat(suffix: &str) -> (r: String)
    ensures
        r@ == "error: --difficulty-p"@ + suffix@ + ": seat index must be 0..=3"@,
{
    "error: --difficulty-p".to_owned().concat(suffix).concat(": seat index must be 0..=3")
}

/// The difficulty that a seat plays at: its own, else that of the table.
pub fn seat_difficulty(own: Option<AiDifficulty>, table: AiDifficulty) -> (r: AiDifficulty)
    ensures
        r == match own {
            Some(d) => d,
            None => table,
        },
{
    match own {
        Some(d) => d,
        None => table,
    }
}

// ---------------------------------------------------------------------------
// The games file
// ---------------------------------------------------------------------------

/// The text before the first comma.
pub open spec fn before_comma(line: Seq<char>) -> Option<Seq<char>> {
    match text::first_index(line, ',') {
        Some(i) => Some(line.subrange(0, i)),
        None => None,
    }
}

/// The text after the first comma.
pub open spec fn after_comma(line: Seq<char>) -> Option<Seq<char>> {
    match text::first_index(line, ',') {
        Some(i) => Some(line.subrange(i + 1, line.len() as int)),
        None => None,
    }
}

/// The seed on a line.
pub open spec fn line_seed(line: Seq<char>) -> Option<nat> {
    match before_comma(line) {
        Some(s) => text::whole_number(text::trimmed(s), u64::MAX as nat),
        None => None,
    }
}

/// The difficulty on a line.
pub open spec fn line_difficulty(line: Seq<char>) -> Option<AiDifficulty> {
    match after_comma(line) {
        Some(s) => config::labelled(text::trimmed(s)),
        None => None,
    }
}

/// Whether `game` is the game that a line asks for.
pub open spec fn is_game(line: Seq<char>, game: (u64, AiDifficulty)) -> bool {
    line_seed(line) == Some(game.0 as nat) && line_difficulty(line) == Some(game.1)
}

/// Whether a line asks for a game.
pub open spec fn asks_for_game(line: Seq<char>) -> bool {
    line_seed(line) is Some && line_difficulty(line) is Some
}

/// The message for a line without a comma, which is given in quotes.
pub open spec fn missing_comma_text(line: Seq<char>) -> Seq<char> {
    "malformed games-file line (expected `seed,difficulty`): "@ + line
}

/// The message for a line whose seed is no whole number, both in quotes.
pub open spec fn bad_seed_text(line: Seq<char>, seed: Seq<char>) -> Seq<char> {
    "games-file line "@ + line + ": seed "@ + seed + " is not a valid non-negative integer"@
}

/// The message for a line with an unknown difficulty, both in quotes.
pub open spec fn unknown_label_text(line: Seq<char>, label: Seq<char>) -> Seq<char> {
    "games-file line "@ + line + ": unrecognized difficulty "@ + label + "; accepted values: "@
        + accepted_labels()
}

/// What is said of a line that asks for no game: the first of a missing comma,
/// a bad seed and an unknown difficulty.
pub open spec fn line_message(line: Seq<char>) -> Seq<char> {
    match (before_comma(line), after_comma(line)) {
        (Some(seed), Some(label)) => if line_seed(line) is None {
            bad_seed_text(text::debug_form(line), text::debug_form(seed))
        } else {
            unknown_label_text(text::debug_form(line), text::debug_form(text::trimmed(label)))
        },
        _ => missing_comma_text(text::debug_form(line)),
    }
}

/// The message for a line without a comma, which is given in quotes.
pub fn missing_comma_message(line: &str) -> (r: String)
    ensures
        r@ == missing_comma_text(line@),
{
    "malformed games-file line (expected `seed,difficulty`): ".to_owned().concat(line)
}

/// The message for a line whose seed is no whole number, both in quotes.
pub fn bad_seed_message(line: &str, seed: &str) -> (r: String)
    ensures
        r@ == bad_seed_text(line@, seed@),
{
    "games-file line ".to_owned().concat(line).concat(": seed ").concat(seed).concat(
        " is not a valid non-negative integer",
    )
}

/// The message for a line with an unknown difficulty, both in quotes.
pub fn unknown_label_message(line: &str, label: &str) -> (r: String)
    ensures
        r@ == unknown_label_text(line@, label@),
{
    "games-file line ".to_owned().concat(line).concat(": unrecognized difficulty ").concat(
        label,
    ).concat("; accepted values: ").concat("VeryEasy, Easy, Medium, Hard, VeryHard, CEDH")
}

/// One game of a games file: `seed,difficulty`.
pub fn parse_games_file_line(line: &str) -> (r: Result<(u64, AiDifficulty), String>)
    ensures
        match r {
            Ok(game) => is_game(line@, game),
            Err(e) => !asks_for_game(line@) && e@ == line_message(line@),
        },
{
    let comma: usize = match find_char(line, ',') {
        Some(i) => i,
        None => return Err(missing_comma_message(debug_text(line).as_str())),
    };
    let n: usize = line.unicode_len();
    let seed_text = line.substring_char(0, comma);
    let label_text = line.substring_char(comma + 1, n);
    let seed: u64 = match parse_u64(trim(seed_text)) {
        Some(v) => v,
        None => return Err(
            bad_seed_message(debug_text(line).as_str(), debug_text(seed_text).as_str()),
        ),
    };
    let label = trim(label_text);
    match AiDifficulty::accepted(label) {
        Some(d) => Ok((seed, d)),
        None => Err(
            unknown_label_message(debug_text(line).as_str(), debug_text(label).as_str()),
        ),
    }
}

/// The lines of a text.
pub open spec fn lines_of(s: Seq<char>) -> Seq<Seq<char>>
    decreases s.len(),
{
    proof {
        text::lemma_first_index(s, '\n');
    }
    match text::first_index(s, '\n') {
        Some(i) => seq![s.subrange(0, i)] + lines_of(s.subrange(i + 1, s.len() as int)),
        None => seq![s],
    }
}

/// The lines with something on them, without the white space around it.
pub open spec fn entries(lines: Seq<Seq<char>>) -> Seq<Seq<char>>
    decreases lines.len(),
{
    if lines.len() == 0 {
        Seq::empty()
    } else {
        let rest = entries(lines.drop_last());
        let last = text::trimmed(lines.last());
        if last.len() == 0 {
            rest
        } else {
            rest.push(last)
        }
    }
}

/// Whether every line of `lines` asks for the game at its place in `games`.
pub open spec fn are_games(lines: Seq<Seq<char>>, games: Seq<(u64, AiDifficulty)>) -> bool {
    lines.len() == games.len() && forall|i: int|
        0 <= i < lines.len() ==> #[trigger] is_game(lines[i], games[i])
}

/// Whether `message` is what is said of the first line of `lines` that asks for
/// no game.
pub open spec fn is_first_error(lines: Seq<Seq<char>>, message: Seq<char>) -> bool {
    exists|i: int|
        0 <= i < lines.len() && !asks_for_game(#[trigger] lines[i]) && message == line_message(
            lines[i],
        ) && forall|j: int| 0 <= j < i ==> asks_for_game(#[trigger] lines[j])
}

/// The lines of a text.
fn split_lines(s: &str) -> (r: Vec<&str>)
    ensures
        r@.map_values(|l: &str| l@) == lines_of(s@),
{
    let n: usize = s.unicode_len();
    let mut lines: Vec<&str> = Vec::new();
    let ghost views = |l: &str| l@;
    let mut start: usize = 0;
    assert(s@.subrange(0, n as int) =~= s@);
    assert(lines@.map_values(views) + lines_of(s@) =~= lines_of(s@));
    loop
        invariant
            n == s@.len(),
            start <= n,
            views == |l: &str| l@,
            lines@.map_values(views) + lines_of(s@.subrange(start as int, n as int)) == lines_of(
                s@,
            ),
        decreases n - start,
    {
        let rest = s.substring_char(start, n);
        proof {
            text::lemma_first_index(rest@, '\n');
        }
        match find_char(rest, '\n') {
            Some(i) => {
                let line = s.substring_char(start, start + i);
                let ghost before = lines@.map_values(views);
                lines.push(line);
                proof {
                    assert(line@ =~= rest@.subrange(0, i as int));
                    assert(s@.subrange(start + i + 1, n as int) =~= rest@.subrange(
                        i + 1,
                        rest@.len() as int,
                    ));
                    assert(lines@.map_values(views) =~= before.push(line@));
                    assert(lines_of(rest@) == seq![line@] + lines_of(
                        s@.subrange(start + i + 1, n as int),
                    ));
                    assert(before + lines_of(rest@) =~= before.push(line@) + lines_of(
                        s@.subrange(start + i + 1, n as int),
                    ));
                }
                start = start + i + 1;
            },
            None => {
                let ghost before = lines@.map_values(views);
                lines.push(rest);
                proof {
                    assert(lines@.map_values(views) =~= before + seq![rest@]);
                }
                return lines;
            },
        }
    }
}

/// The games of a games file: one per line that is not blank. One bad line
/// fails the whole file.
pub fn parse_games(content: &str) -> (r: Result<Vec<(u64, AiDifficulty)>, String>)
    ensures
        match r {
            Ok(games) => are_games(entries(lines_of(content@)), games@),
            Err(e) => is_first_error(entries(lines_of(content@)), e@),
        },
{
    let lines = split_lines(content);
    let ghost views = |l: &str| l@;
    let ghost all = lines_of(content@);
    let mut games: Vec<(u64, AiDifficulty)> = Vec::new();
    let mut i: usize = 0;
    while i < lines.len()
        invariant
            views == |l: &str| l@,
            all == lines@.map_values(views),
            i <= lines.len(),
            are_games(entries(all.take(i as int)), games@),
            all == lines_of(content@),
        decreases lines.len() - i,
    {
        let line = trim(lines[i]);
        assert(all.take(i + 1).drop_last() =~= all.take(i as int));
        assert(all.take(i + 1).last() == lines@[i as int]@);
        if !line.is_empty() {
            match parse_games_file_line(line) {
                Ok(game) => {
                    let ghost before = games@;
                    games.push(game);
                    proof {
                        let es = entries(all.take(i as int));
                        assert forall|k: int| 0 <= k < es.len() + 1 implies #[trigger] is_game(
                            es.push(line@)[k],
                            games@[k],
                        ) by {
                            if k < es.len() {
                                assert(is_game(es[k], before[k]));
                            }
                        }
                    }
                },
                Err(e) => {
                    proof {
                        let es = entries(all.take(i as int));
                        let here = entries(all.take(i + 1));
                        lemma_entries_prefix(all, i + 1);
                        let whole = entries(all);
                        assert(here == es.push(line@));
                        assert(whole[es.len() as int] == here[es.len() as int]) by {
                            assert(here == whole.subrange(0, here.len() as int));
                        }
                        assert(!asks_for_game(whole[es.len() as int]));
                        assert forall|j: int| 0 <= j < es.len() implies asks_for_game(
                            #[trigger] whole[j],
                        ) by {
                            assert(here == whole.subrange(0, here.len() as int));
                            assert(whole[j] == here[j]);
                            assert(is_game(es[j], games@[j]));
                        }
                    }
                    return Err(e);
                },
            }
        }
        i += 1;
    }
    assert(all.take(all.len() as int) =~= all);
    Ok(games)
}

/// The entries of the first lines come first.
proof fn lemma_entries_prefix(lines: Seq<Seq<char>>, n: int)
    requires
        0 <= n <= lines.len(),
    ensures
        entries(lines.take(n)).is_prefix_of(entries(lines)),
    decreases lines.len() - n,
{
    if n < lines.len() {
        lemma_entries_prefix(lines, n + 1);
        assert(lines.take(n + 1).drop_last() =~= lines.take(n));
        let a = entries(lines.take(n));
        let b = entries(lines.take(n + 1));
        let c = entries(lines);
        assert(a.is_prefix_of(b));
        assert(a =~= c.subrange(0, a.len() as int)) by {
            assert(b == c.subrange(0, b.len() as int));
            assert(a =~= b.subrange(0, a.len() as int));
        }
    } else {
        assert(lines.take(n) =~= lines);
    }
}

// ---------------------------------------------------------------------------
// Watching and judging a game
// ---------------------------------------------------------------------------

/// How a run ended.
#[derive(Debug, Clone, Copy, PartialEq, Eq, Structural)]
pub enum RunOutcome {
    Completed,
    Aborted,
    Stalled,
}

/// How a run ended: aborted where the action cap was hit, else completed where
/// the game is over, else stalled.
pub fn classify_run_outcome(aborted: bool, waiting_for: &WaitingFor) -> (r: RunOutcome)
    ensures
        r == if aborted {
            RunOutcome::Aborted
        } else if waiting_for is GameOver {
            RunOutcome::Completed
        } else {
            RunOutcome::Stalled
        },
{
    if aborted {
        return RunOutcome::Aborted;
    }
    match waiting_for {
        WaitingFor::GameOver { .. } => RunOutcome::Completed,
        _ => RunOutcome::Stalled,
    }
}

/// The exit code of a run.
pub fn exit_code(outcome: RunOutcome) -> (r: i32)
    ensures
        r == match outcome {
            RunOutcome::Completed => 0i32,
            RunOutcome::Aborted => 2i32,
            RunOutcome::Stalled => 3i32,
        },
{
    match outcome {
        RunOutcome::Completed => 0,
        RunOutcome::Aborted => 2,
        RunOutcome::Stalled => 3,
    }
}

/// Who won a game that is over.
pub fn winner_of(waiting_for: &WaitingFor) -> (r: Option<PlayerId>)
    ensures
        r == match *waiting_for {
            WaitingFor::GameOver { winner } => winner,
            _ => None,
        },
{
    match waiting_for {
        WaitingFor::GameOver { winner } => *winner,
        _ => None,
    }
}

/// Which seats have been reported as eliminated, and the last turn that was
/// reported.
#[derive(Debug)]
pub struct GameWatch {
    pub eliminated: Vec<bool>,
    pub last_turn: u32,
}

/// What is new since the last look at a game.
#[derive(Debug)]
pub struct WatchNews {
    /// Whether a turn has begun.
    pub new_turn: bool,
    /// The seats that are newly eliminated, in order.
    pub eliminated: Vec<usize>,
}

impl GameWatch {
    /// A watch on a game with the given number of seats, before anything was
    /// reported.
    pub fn new(seats: usize) -> (r: Self)
        ensures
            r.eliminated@ == Seq::new(seats as nat, |i: int| false),
            r.last_turn == 0,
    {
        let mut eliminated: Vec<bool> = Vec::new();
        let mut i: usize = 0;
        while i < seats
            invariant
                i <= seats,
                eliminated@ == Seq::new(i as nat, |k: int| false),
            decreases seats - i,
        {
            eliminated.push(false);
            i += 1;
        }
        GameWatch { eliminated, last_turn: 0 }
    }

    /// Whether seat `i` is eliminated and was not reported yet.
    pub open spec fn is_news(self, state: GameState, i: int) -> bool {
        !self.eliminated@[i] && state.players@[i].is_eliminated
    }

    /// Looks at a game. Every elimination is reported once, whatever follows.
    pub fn look(&mut self, state: &GameState) -> (r: WatchNews)
        requires
            old(self).eliminated@.len() == state.players@.len(),
        ensures
            r.new_turn == (state.turn_number != old(self).last_turn),
            final(self).last_turn == state.turn_number,
            final(self).eliminated@.len() == old(self).eliminated@.len(),
            forall|i: int|
                0 <= i < state.players@.len() ==> #[trigger] final(self).eliminated@[i] == (old(
                    self,
                ).eliminated@[i] || state.players@[i].is_eliminated),
            r.eliminated@ == news_below(*old(self), *state, state.players@.len() as int),
    {
        let new_turn: bool = state.turn_number != self.last_turn;
        self.last_turn = state.turn_number;
        let mut news: Vec<usize> = Vec::new();
        let mut i: usize = 0;
        while i < state.players.len()
            invariant
                i <= state.players@.len(),
                self.eliminated@.len() == state.players@.len(),
                old(self).eliminated@.len() == state.players@.len(),
                self.last_turn == state.turn_number,
                forall|k: int|
                    0 <= k < i ==> #[trigger] self.eliminated@[k] == (old(self).eliminated@[k]
                        || state.players@[k].is_eliminated),
                forall|k: int|
                    i <= k < state.players@.len() ==> #[trigger] self.eliminated@[k] == old(
                        self,
                    ).eliminated@[k],
                news@ == news_below(*old(self), *state, i as int),
            decreases state.players@.len() - i,
        {
            if !self.eliminated[i] && state.players[i].is_eliminated {
                self.eliminated.set(i, true);
                news.push(i);
            }
            i += 1;
        }
        WatchNews { new_turn, eliminated: news }
    }
}

/// The newly eliminated seats below seat `n`, in order.
pub open spec fn news_below(watch: GameWatch, state: GameState, n: int) -> Seq<usize>
    decreases n,
{
    if n <= 0 {
        Seq::empty()
    } else if watch.is_news(state, n - 1) {
        news_below(watch, state, n - 1).push((n - 1) as usize)
    } else {
        news_below(watch, state, n - 1)
    }
}

/// Nothing is new to a watch that has just looked.
pub proof fn law_elimination_is_reported_once(before: GameWatch, after: GameWatch, state: GameState)
    requires
        before.eliminated@.len() == state.players@.len(),
        after.eliminated@.len() == state.players@.len(),
        forall|i: int|
            0 <= i < state.players@.len() ==> #[trigger] after.eliminated@[i] == (
            before.eliminated@[i] || state.players@[i].is_eliminated),
    ensures
        news_below(after, state, state.players@.len() as int) == Seq::<usize>::empty(),
{
    lemma_no_news(after, state, state.players@.len() as int);
}

proof fn lemma_no_news(watch: GameWatch, state: GameState, n: int)
    requires
        0 <= n <= state.players@.len(),
        forall|i: int|
            0 <= i < state.players@.len() ==> (state.players@[i].is_eliminated
                ==> #[trigger] watch.eliminated@[i]),
    ensures
        news_below(watch, state, n) == Seq::<usize>::empty(),
    decreases n,
{
    if n > 0 {
        lemma_no_news(watch, state, n - 1);
        assert(state.players@[n - 1].is_eliminated ==> watch.eliminated@[n - 1]);
    }
}

/// The objects that a player owns.
pub open spec fn owned_by(state: GameState, p: PlayerId) -> spec_fn(ObjectId) -> bool {
    |id: ObjectId|
        match state.obj(id) {
            Some(o) => o.owner == p,
            None => false,
        }
}

/// How many permanents on the battlefield a player owns.
pub fn count_owned_permanents(state: &GameState, player: PlayerId) -> (r: usize)
    ensures
        r == seqs::count(state.battlefield@, owned_by(*state, player)),
{
    let ghost b = state.battlefield@;
    let mut n: usize = 0;
    let mut i: usize = 0;
    while i < state.battlefield.len()
        invariant
            b == state.battlefield@,
            i <= b.len(),
            n <= i,
            n == seqs::count(b.take(i as int), owned_by(*state, player)),
        decreases b.len() - i,
    {
        proof {
            seqs::lemma_count_step(b, i as int, owned_by(*state, player));
        }
        if let Some(o) = state.object(state.battlefield[i]) {
            if o.owner == player {
                n += 1;
            }
        }
        i += 1;
    }
    assert(b.take(b.len() as int) =~= b);
    n
}

/// The life totals of the first `n` seats, as in `P0:40 P1:38`.
pub open spec fn life_text(players: Seq<Player>, n: int) -> Seq<char>
    decreases n,
{
    if n <= 0 {
        Seq::empty()
    } else {
        let seat = "P"@ + duel::decimal_digits((n - 1) as nat) + ":"@ + duel::decimal(
            players[n - 1].life as int,
        );
        if n == 1 {
            seat
        } else {
            life_text(players, n - 1) + " "@ + seat
        }
    }
}

/// The life totals of all seats on one line.
pub fn life_snapshot(players: &Vec<Player>) -> (r: String)
    ensures
        r@ == life_text(players@, players@.len() as int),
{
    let mut line = String::new();
    let mut i: usize = 0;
    while i < players.len()
        invariant
            i <= players@.len(),
            line@ == life_text(players@, i as int),
        decreases players@.len() - i,
    {
        let seat = "P".to_owned().concat(render_number(i as u64).as_str()).concat(":").concat(
            render_signed(players[i].life as i64).as_str(),
        );
        if i > 0 {
            line.append(" ");
        }
        line.append(seat.as_str());
        proof {
            if i == 0 {
                assert(line@ =~= seat@);
            }
        }
        i += 1;
    }
    line
}

// ---------------------------------------------------------------------------
// What the runner promises
// ---------------------------------------------------------------------------

/// A difficulty is accepted exactly where its label is known, and never
/// replaced by another.
pub proof fn law_unknown_difficulty_is_an_error(s: &str, r: Result<AiDifficulty, String>)
    requires
        call_ensures(parse_difficulty, (s,), r),
    ensures
        r is Ok <==> config::labelled(s@) is Some,
        r matches Ok(d) ==> config::labelled(s@) == Some(d),
        r matches Err(e) ==> e@ == "error: unrecognized --difficulty "@ + text::debug_form(s@)
            + "; accepted values: "@ + "VeryEasy, Easy, Medium, Hard, VeryHard, CEDH"@,
{
}

/// An action cap is accepted exactly where the text, without the white space
/// around it, writes a whole number above zero that fits; and it is that
/// number.
pub proof fn law_action_cap_is_positive(s: &str, r: Result<usize, String>)
    requires
        call_ensures(parse_action_cap_checked, (s,), r),
    ensures
        r matches Ok(n) ==> n > 0 && text::whole_number(text::trimmed(s@), usize::MAX as nat)
            == Some(n as nat),
        r is Err <==> text::whole_number(text::trimmed(s@), usize::MAX as nat) is None
            || text::whole_number(text::trimmed(s@), usize::MAX as nat) == Some(0nat),
        r matches Err(e) ==> e@ == "error: --action-cap "@ + text::debug_form(s@)
            + " must be a positive integer"@,
{
}

/// A per-seat flag is accepted exactly where its suffix writes a number below
/// four and a label follows; the label is handed on as it is.
pub proof fn law_seat_flags_name_one_of_four_seats(
    suffix: &str,
    value: Option<&'static str>,
    r: Result<(usize, &'static str), String>,
)
    requires
        call_ensures(parse_seat_override, (suffix, value), r),
    ensures
        r is Ok <==> value is Some && (text::whole_number(
            suffix@,
            usize::MAX as nat,
        ) matches Some(i) && i < 4),
        r matches Ok((seat, label)) ==> text::whole_number(suffix@, usize::MAX as nat) == Some(
            seat as nat,
        ) && value == Some(label),
{
}

/// A seat's own difficulty comes before that of the table.
pub proof fn law_own_difficulty_comes_first(
    own: Option<AiDifficulty>,
    table: AiDifficulty,
    r: AiDifficulty,
)
    requires
        call_ensures(seat_difficulty, (own, table), r),
    ensures
        own is None ==> r == table,
        own matches Some(d) ==> r == d,
{
}

/// A line of a games file asks for a game exactly where a comma parts a whole
/// number from a known difficulty, white space aside.
pub proof fn law_games_are_seed_and_difficulty(
    line: &str,
    r: Result<(u64, AiDifficulty), String>,
    seed: Seq<char>,
    label: Seq<char>,
)
    requires
        call_ensures(parse_games_file_line, (line,), r),
        line@ == seed + seq![','] + label,
        !seed.contains(','),
    ensures
        ({
            let number = text::whole_number(text::trimmed(seed), u64::MAX as nat);
            let difficulty = config::labelled(text::trimmed(label));
            &&& r is Ok <==> number is Some && difficulty is Some
            &&& r matches Ok((s, d)) ==> number == Some(s as nat) && difficulty == Some(d)
        }),
{
    text::lemma_first_index(line@, ',');
    let k = text::first_index(line@, ',');
    assert(line@[seed.len() as int] == ',');
    if k is None {
        assert(line@.contains(line@[seed.len() as int]));
    }
    let i = k->Some_0;
    if i < seed.len() {
        assert(line@[i] == seed[i]);
        assert(seed.contains(seed[i]));
    }
    assert(i == seed.len());
    assert(line@.subrange(0, i) =~= seed);
    assert(line@.subrange(i + 1, line@.len() as int) =~= label);
}

/// A line without a comma asks for no game.
pub proof fn law_game_needs_a_comma(line: &str, r: Result<(u64, AiDifficulty), String>)
    requires
        call_ensures(parse_games_file_line, (line,), r),
        !line@.contains(','),
    ensures
        r is Err,
{
    text::lemma_first_index(line@, ',');
}

/// A file with one line has the game that the line asks for, or none where the
/// line is blank; and a text without a line break is one line.
pub proof fn law_file_of_one_line(
    content: &str,
    r: Result<Vec<(u64, AiDifficulty)>, String>,
)
    requires
        call_ensures(parse_games, (content,), r),
        !content@.contains('\n'),
    ensures
        text::trimmed(content@).len() == 0 ==> (r matches Ok(games) && games@.len() == 0),
        text::trimmed(content@).len() > 0 ==> match r {
            Ok(games) => games@.len() == 1 && is_game(text::trimmed(content@), games@[0]),
            Err(e) => !asks_for_game(text::trimmed(content@)) && e@ == line_message(
                text::trimmed(content@),
            ),
        },
{
    text::lemma_first_index(content@, '\n');
    let lines = lines_of(content@);
    assert(lines =~= seq![content@]);
    let t = text::trimmed(content@);
    assert(lines.drop_last() =~= Seq::<Seq<char>>::empty());
    assert(entries(lines.drop_last()) =~= Seq::<Seq<char>>::empty());
    let es = entries(lines);
    if t.len() == 0 {
        assert(es =~= Seq::<Seq<char>>::empty());
    } else {
        assert(es =~= seq![t]);
        match r {
            Ok(games) => {
                assert(is_game(es[0], games@[0]));
            },
            Err(e) => {
                let i = choose|i: int|
                    0 <= i < es.len() && !asks_for_game(#[trigger] es[i]) && e@ == line_message(
                        es[i],
                    ) && forall|j: int| 0 <= j < i ==> asks_for_game(#[trigger] es[j]);
                assert(es[i] == t);
            },
        }
    }
}

/// A line break parts a file: what stands before it is the first line, and the
/// rest is read as a file of its own.
pub proof fn law_line_breaks_part_lines(first: Seq<char>, rest: Seq<char>)
    requires
        !first.contains('\n'),
    ensures
        lines_of(first + seq!['\n'] + rest) == seq![first] + lines_of(rest),
{
    let s = first + seq!['\n'] + rest;
    text::lemma_first_index(s, '\n');
    assert(s[first.len() as int] == '\n');
    if text::first_index(s, '\n') is None {
        assert(s.contains(s[first.len() as int]));
    }
    let i = text::first_index(s, '\n')->Some_0;
    if i < first.len() {
        assert(s[i] == first[i]);
        assert(first.contains(first[i]));
    }
    assert(s.subrange(0, i) =~= first);
    assert(s.subrange(i + 1, s.len() as int) =~= rest);
}

/// One more line adds an entry exactly where something but white space stands
/// on it, without the white space around that; no lines have no entries.
pub proof fn law_blank_lines_are_skipped(lines: Seq<Seq<char>>, line: Seq<char>)
    ensures
        text::trimmed(line).len() == 0 ==> entries(lines.push(line)) == entries(lines),
        text::trimmed(line).len() > 0 ==> entries(lines.push(line)) == entries(lines).push(
            text::trimmed(line),
        ),
        entries(Seq::<Seq<char>>::empty()).len() == 0,
{
    assert(lines.push(line).drop_last() =~= lines);
}

/// A file is read as a whole: its games are those of its entries, in order, or
/// the first bad entry is reported.
pub proof fn law_one_bad_line_fails_the_file(
    content: &str,
    r: Result<Vec<(u64, AiDifficulty)>, String>,
    i: int,
)
    requires
        call_ensures(parse_games, (content,), r),
        0 <= i < entries(lines_of(content@)).len(),
    ensures
        ({
            let es = entries(lines_of(content@));
            &&& r matches Ok(games) ==> games@.len() == es.len() && is_game(es[i], games@[i])
            &&& !asks_for_game(es[i]) ==> r is Err
            &&& (!asks_for_game(es[i]) && forall|j: int| 0 <= j < i ==> asks_for_game(
                #[trigger] es[j],
            )) ==> (r matches Err(e) && e@ == line_message(es[i]))
        }),
{
    let es = entries(lines_of(content@));
    match r {
        Ok(games) => {
            assert(is_game(es[i], games@[i]));
        },
        Err(e) => {
            let k = choose|k: int|
                0 <= k < es.len() && !asks_for_game(#[trigger] es[k]) && e@ == line_message(es[k])
                    && forall|j: int| 0 <= j < k ==> asks_for_game(#[trigger] es[j]);
            if !asks_for_game(es[i]) && forall|j: int| 0 <= j < i ==> asks_for_game(
                #[trigger] es[j],
            ) {
                if k < i {
                    assert(asks_for_game(es[k]));
                }
                if i < k {
                    assert(asks_for_game(es[i]));
                }
            }
        },
    }
}

/// What is said of a bad line names the line: a missing comma, then a bad seed,
/// then an unknown difficulty.
pub proof fn law_messages_name_the_line(line: Seq<char>)
    requires
        !asks_for_game(line),
    ensures
        ({
            let said = line_message(line);
            let quoted = text::debug_form(line);
            let comma = text::first_index(line, ',');
            &&& comma is None ==> said
                == "malformed games-file line (expected `seed,difficulty`): "@ + quoted
            &&& comma matches Some(i) ==> {
                let seed = line.subrange(0, i);
                let label = text::trimmed(line.subrange(i + 1, line.len() as int));
                let number = text::whole_number(text::trimmed(seed), u64::MAX as nat);
                &&& number is None ==> said == "games-file line "@ + quoted + ": seed "@
                    + text::debug_form(seed) + " is not a valid non-negative integer"@
                &&& number is Some ==> said == "games-file line "@ + quoted
                    + ": unrecognized difficulty "@ + text::debug_form(label)
                    + "; accepted values: "@ + "VeryEasy, Easy, Medium, Hard, VeryHard, CEDH"@
            }
        }),
{
}

/// A run was aborted exactly where it hit its cap, else completed exactly where
/// the game is over, and stalled otherwise; and each has an exit code of its
/// own, zero for a completed run alone.
pub proof fn law_runs_exit_by_their_outcome(
    aborted: bool,
    waiting_for: &WaitingFor,
    outcome: RunOutcome,
    code: i32,
)
    requires
        call_ensures(classify_run_outcome, (aborted, waiting_for), outcome),
        call_ensures(exit_code, (outcome,), code),
    ensures
        outcome is Aborted <==> aborted,
        outcome is Completed <==> !aborted && *waiting_for is GameOver,
        outcome is Stalled <==> !aborted && !(*waiting_for is GameOver),
        code == 0 <==> outcome is Completed,
        code == 2 <==> outcome is Aborted,
        code == 3 <==> outcome is Stalled,
{
}

/// A winner is the one that a finished game names, and there is none before.
pub proof fn law_winner_is_that_of_a_finished_game(
    waiting_for: &WaitingFor,
    r: Option<PlayerId>,
    p: PlayerId,
)
    requires
        call_ensures(winner_of, (waiting_for,), r),
    ensures
        r == Some(p) <==> *waiting_for == (WaitingFor::GameOver { winner: Some(p) }),
{
}

/// A seat is reported exactly on the first look that finds it eliminated, and
/// reports come in the order of seats.
pub proof fn law_news_are_first_eliminations(
    watch: &mut GameWatch,
    state: &GameState,
    news: WatchNews,
    i: int,
)
    requires
        old(watch).eliminated@.len() == state.players@.len(),
        call_ensures(GameWatch::look, (watch, state), news),
        0 <= i < state.players@.len() <= usize::MAX,
    ensures
        news.eliminated@.contains(i as usize) <==> state.players@[i].is_eliminated && !old(
            watch,
        ).eliminated@[i],
        forall|a: int, b: int|
            0 <= a < b < news.eliminated@.len() ==> news.eliminated@[a] < news.eliminated@[b],
        news.new_turn <==> state.turn_number != old(watch).last_turn,
        final(watch).last_turn == state.turn_number,
        final(watch).eliminated@[i] <==> old(watch).eliminated@[i]
            || state.players@[i].is_eliminated,
{
    lemma_news(*old(watch), *state, state.players@.len() as int);
    let all = news.eliminated@;
    if all.contains(i as usize) {
        let k = choose|k: int| 0 <= k < all.len() && all[k] == i as usize;
        assert(old(watch).is_news(*state, all[k] as int));
    }
}

/// News are the seats with something new below a seat, in order.
proof fn lemma_news(watch: GameWatch, state: GameState, n: int)
    requires
        0 <= n <= usize::MAX,
    ensures
        ({
            let news = news_below(watch, state, n);
            &&& forall|k: int|
                0 <= k < news.len() ==> 0 <= #[trigger] news[k] < n && watch.is_news(
                    state,
                    news[k] as int,
                )
            &&& forall|i: int|
                0 <= i < n && watch.is_news(state, i) ==> news.contains(#[trigger] (i as usize))
            &&& forall|a: int, b: int| 0 <= a < b < news.len() ==> news[a] < news[b]
        }),
    decreases n,
{
    if n > 0 {
        lemma_news(watch, state, n - 1);
        let before = news_below(watch, state, n - 1);
        let news = news_below(watch, state, n);
        assert forall|i: int| 0 <= i < n && watch.is_news(state, i) implies news.contains(
            #[trigger] (i as usize),
        ) by {
            if i < n - 1 {
                assert(before.contains(i as usize));
                let k = choose|k: int| 0 <= k < before.len() && before[k] == i as usize;
                assert(news[k] == i as usize);
            } else {
                assert(news[before.len() as int] == i as usize);
            }
        }
    }
}

/// A new watch has reported nothing.
pub proof fn law_new_watch_has_seen_nothing(seats: usize, watch: GameWatch, i: int)
    requires
        call_ensures(GameWatch::new, (seats,), watch),
    ensures
        watch.eliminated@.len() == seats,
        0 <= i < seats ==> !watch.eliminated@[i],
        watch.last_turn == 0,
{
}

/// One more permanent on the battlefield counts for its owner alone, whoever
/// controls it.
pub proof fn law_permanents_count_for_their_owner(
    before: &GameState,
    after: &GameState,
    id: ObjectId,
    player: PlayerId,
    few: usize,
    many: usize,
)
    requires
        after.objects@ == before.objects@,
        after.battlefield@ == before.battlefield@.push(id),
        call_ensures(count_owned_permanents, (before, player), few),
        call_ensures(count_owned_permanents, (after, player), many),
    ensures
        many - few == (match before.obj(id) {
            Some(o) => if o.owner == player {
                1int
            } else {
                0
            },
            None => 0,
        }),
        before.battlefield@.len() == 0 ==> few == 0,
{
    assert(owned_by(*after, player) =~= owned_by(*before, player));
    seqs::lemma_count_push(before.battlefield@, id, owned_by(*before, player));
}

/// Life totals are written seat by seat, each with its number and its life,
/// with a space between two of them.
pub proof fn law_life_line_names_every_seat(players: Seq<Player>, n: int)
    requires
        0 < n <= players.len(),
    ensures
        ({
            let seat = "P"@ + duel::decimal_digits((n - 1) as nat) + ":"@ + duel::decimal(
                players[n - 1].life as int,
            );
            &&& n == 1 ==> life_text(players, n) == seat
            &&& n > 1 ==> life_text(players, n) == life_text(players, n - 1) + " "@ + seat
        }),
        life_text(players, 0).len() == 0,
{
}

/// What `life_snapshot` returns names all seats.
pub proof fn law_life_snapshot_is_the_line(players: &Vec<Player>, r: String)
    requires
        call_ensures(life_snapshot, (players,), r),
    ensures
        r@ == life_text(players@, players@.len() as int),
        players@.len() == 0 ==> r@.len() == 0,
{
}

} // verus!
