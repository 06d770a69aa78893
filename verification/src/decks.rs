//! Reading commander decks out of a feed.

use vstd::prelude::*;
use vstd::string::*;

use crate::json;
use crate::json::{as_array, as_str, as_u64, member, parse_json, Json};

verus! {

/// A line of a deck in a feed. Either part may be missing or ill-typed.
#[derive(Debug)]
pub struct FeedEntry {
    pub name: Option<String>,
    pub count: Option<u64>,
}

/// A deck in a feed.
#[derive(Debug)]
pub struct FeedDeck {
    pub name: Option<String>,
    /// The listed commanders; an entry that is no text is `None`.
    pub commander: Option<Vec<Option<String>>>,
    pub main: Option<Vec<FeedEntry>>,
}

/// A deck to play with.
#[derive(Debug)]
pub struct PlayerDeckList {
    pub main_deck: Vec<String>,
    pub commander: Vec<String>,
}

/// The texts of strings.
pub open spec fn texts(v: Seq<String>) -> Seq<Seq<char>> {
    v.map_values(|s: String| s@)
}

/// The entries of `v` that are texts.
pub open spec fn present(v: Seq<Option<String>>) -> Seq<Seq<char>>
    decreases v.len(),
{
    if v.len() == 0 {
        Seq::empty()
    } else {
        match v.last() {
            Some(s) => present(v.drop_last()).push(s@),
            None => present(v.drop_last()),
        }
    }
}

/// The name of a deck.
pub open spec fn deck_name(deck: FeedDeck) -> Seq<char> {
    match deck.name {
        Some(s) => s@,
        None => "<unnamed>"@,
    }
}

/// The commanders of a deck: those it lists, or its own name where it lists
/// none.
pub open spec fn commanders(deck: FeedDeck) -> Seq<Seq<char>> {
    match deck.commander {
        Some(listed) => if listed@.len() > 0 {
            present(listed@)
        } else {
            seq![deck_name(deck)]
        },
        None => seq![deck_name(deck)],
    }
}

/// `n` times the same text.
pub open spec fn copies(name: Seq<char>, n: nat) -> Seq<Seq<char>> {
    Seq::new(n, |i: int| name)
}

/// The cards of the main deck: every entry as often as it counts, without the
/// commanders.
pub open spec fn cards(entries: Seq<FeedEntry>, commanders: Seq<Seq<char>>) -> Seq<Seq<char>>
    decreases entries.len(),
{
    if entries.len() == 0 {
        Seq::empty()
    } else {
        let rest = cards(entries.drop_last(), commanders);
        let e = entries.last();
        match e.name {
            Some(name) => if commanders.contains(name@) {
                rest
            } else {
                match e.count {
                    Some(n) => rest + copies(name@, n as nat),
                    None => rest,
                }
            },
            None => rest,
        }
    }
}

/// Whether a deck can be played: it has a commander, the first of them is a
/// known card, and it has a main deck.
pub open spec fn playable(deck: FeedDeck, known: Seq<String>) -> bool {
    &&& commanders(deck).len() > 0
    &&& texts(known).contains(commanders(deck)[0])
    &&& deck.main is Some
}

/// Whether `list` is the deck of a feed.
pub open spec fn is_list(deck: FeedDeck, list: PlayerDeckList) -> bool {
    &&& texts(list.commander@) == commanders(deck)
    &&& deck.main matches Some(main) && texts(list.main_deck@) == cards(main@, commanders(deck))
}

/// The first `limit` playable decks among the first `n`.
pub open spec fn chosen(
    decks: Seq<FeedDeck>,
    known: Seq<String>,
    limit: nat,
    n: int,
) -> Seq<FeedDeck>
    decreases n,
{
    if n <= 0 {
        Seq::empty()
    } else {
        let rest = chosen(decks, known, limit, n - 1);
        if rest.len() < limit && playable(decks[n - 1], known) {
            rest.push(decks[n - 1])
        } else {
            rest
        }
    }
}

/// Whether `names` holds `name`.
fn contains_text(names: &Vec<String>, name: &String) -> (r: bool)
    ensures
        r == texts(names@).contains(name@),
{
    let ghost ts = texts(names@);
    let mut i: usize = 0;
    while i < names.len()
        invariant
            ts == texts(names@),
            i <= names@.len(),
            forall|j: int| 0 <= j < i ==> #[trigger] ts[j] != name@,
        decreases names@.len() - i,
    {
        assert(ts[i as int] == names@[i as int]@);
        if names[i] == *name {
            return true;
        }
        i += 1;
    }
    false
}

/// The commanders of a deck.
pub fn commander_names(deck: &FeedDeck) -> (r: Vec<String>)
    ensures
        texts(r@) == commanders(*deck),
{
    let mut names: Vec<String> = Vec::new();
    if let Some(listed) = &deck.commander {
        if listed.len() > 0 {
            let mut i: usize = 0;
            assert(texts(names@) =~= present(listed@.take(0)));
            while i < listed.len()
                invariant
                    i <= listed@.len(),
                    texts(names@) == present(listed@.take(i as int)),
                decreases listed@.len() - i,
            {
                assert(listed@.take(i + 1).drop_last() =~= listed@.take(i as int));
                if let Some(s) = &listed[i] {
                    let ghost before = names@;
                    names.push(s.clone());
                    assert(texts(names@) =~= texts(before).push(s@));
                }
                i += 1;
            }
            assert(listed@.take(listed@.len() as int) =~= listed@);
            return names;
        }
    }
    let own = match &deck.name {
        Some(s) => s.clone(),
        None => "<unnamed>".to_owned(),
    };
    names.push(own);
    assert(texts(names@) =~= seq![deck_name(*deck)]);
    names
}

/// The cards of a main deck without the commanders.
fn main_cards(entries: &Vec<FeedEntry>, commanders: &Vec<String>) -> (r: Vec<String>)
    ensures
        texts(r@) == cards(entries@, texts(commanders@)),
{
    let ghost cs = texts(commanders@);
    let mut deck: Vec<String> = Vec::new();
    let mut i: usize = 0;
    assert(texts(deck@) =~= cards(entries@.take(0), cs));
    while i < entries.len()
        invariant
            cs == texts(commanders@),
            i <= entries@.len(),
            texts(deck@) == cards(entries@.take(i as int), cs),
        decreases entries@.len() - i,
    {
        assert(entries@.take(i + 1).drop_last() =~= entries@.take(i as int));
        let entry = &entries[i];
        if let Some(name) = &entry.name {
            if !contains_text(commanders, name) {
                if let Some(n) = entry.count {
                    push_copies(&mut deck, name, n);
                }
            }
        }
        i += 1;
    }
    assert(entries@.take(entries@.len() as int) =~= entries@);
    deck
}

/// Adds `n` copies of `name`.
fn push_copies(deck: &mut Vec<String>, name: &String, n: u64)
    ensures
        texts(final(deck)@) == texts(old(deck)@) + copies(name@, n as nat),
{
    let mut k: u64 = 0;
    assert(texts(deck@) + copies(name@, 0) =~= texts(deck@));
    while k < n
        invariant
            k <= n,
            texts(deck@) == texts(old(deck)@) + copies(name@, k as nat),
        decreases n - k,
    {
        let ghost before = deck@;
        deck.push(name.clone());
        assert(texts(deck@) =~= texts(before).push(name@));
        assert(texts(old(deck)@) + copies(name@, (k + 1) as nat) =~= (texts(old(deck)@) + copies(
            name@,
            k as nat,
        )).push(name@));
        k += 1;
    }
}

/// The deck of a feed, `None` where it cannot be played. `known` are the names
/// that the card database knows.
pub fn deck_list(deck: &FeedDeck, known: &Vec<String>) -> (r: Option<PlayerDeckList>)
    ensures
        match r {
            Some(list) => playable(*deck, known@) && is_list(*deck, list),
            None => !playable(*deck, known@),
        },
{
    let commander = commander_names(deck);
    if commander.len() == 0 {
        assert(texts(commander@).len() == 0);
        return None;
    }
    assert(texts(commander@)[0] == commander@[0]@);
    if !contains_text(known, &commander[0]) {
        return None;
    }
    match &deck.main {
        Some(main) => {
            let main_deck = main_cards(main, &commander);
            Some(PlayerDeckList { main_deck, commander })
        },
        None => None,
    }
}

/// Whether `lists` are the first four playable decks, in order.
pub open spec fn are_first_four(
    decks: Seq<FeedDeck>,
    known: Seq<String>,
    lists: Seq<PlayerDeckList>,
) -> bool {
    let picked = chosen(decks, known, 4, decks.len() as int);
    lists.len() == picked.len() && forall|i: int|
        0 <= i < lists.len() ==> is_list(picked[i], #[trigger] lists[i])
}

/// The first four playable decks, in order.
pub fn select_commander_decks(decks: &Vec<FeedDeck>, known: &Vec<String>) -> (r: Vec<
    PlayerDeckList,
>)
    ensures
        are_first_four(decks@, known@, r@),
{
    let mut lists: Vec<PlayerDeckList> = Vec::new();
    let mut i: usize = 0;
    while i < decks.len()
        invariant
            i <= decks@.len(),
            lists@.len() == chosen(decks@, known@, 4, i as int).len(),
            forall|k: int|
                0 <= k < lists@.len() ==> is_list(
                    chosen(decks@, known@, 4, i as int)[k],
                    #[trigger] lists@[k],
                ),
        decreases decks@.len() - i,
    {
        if lists.len() < 4 {
            if let Some(list) = deck_list(&decks[i], known) {
                lists.push(list);
            }
        }
        i += 1;
    }
    lists
}

proof fn lemma_no_commander_among_cards(
    entries: Seq<FeedEntry>,
    commanders: Seq<Seq<char>>,
    i: int,
)
    requires
        0 <= i < cards(entries, commanders).len(),
    ensures
        !commanders.contains(cards(entries, commanders)[i]),
    decreases entries.len(),
{
    let rest = cards(entries.drop_last(), commanders);
    if i < rest.len() {
        lemma_no_commander_among_cards(entries.drop_last(), commanders, i);
    }
}

/// No deck holds its commander in its main deck as well.
pub proof fn law_commander_is_not_in_the_main_deck(deck: FeedDeck, list: PlayerDeckList, i: int)
    requires
        is_list(deck, list),
        0 <= i < list.main_deck@.len(),
    ensures
        !texts(list.commander@).contains(list.main_deck@[i]@),
{
    let main = deck.main->0;
    assert(texts(list.main_deck@)[i] == list.main_deck@[i]@);
    lemma_no_commander_among_cards(main@, commanders(deck), i);
}

// ---------------------------------------------------------------------------
// The text of a feed
// ---------------------------------------------------------------------------

/// What is wrong with the text of a feed.
#[derive(Debug, PartialEq, Eq)]
pub enum FeedError {
    /// It is not a JSON document.
    NotJson { message: String },
    /// The document has no list of decks.
    MissingDecks,
}

/// The text of an optional string.
pub open spec fn text_of(s: Option<String>) -> Option<Seq<char>> {
    match s {
        Some(s) => Some(s@),
        None => None,
    }
}

/// Whether `entry` is the line of a deck that a part of a document describes.
pub open spec fn describes_entry(j: Json, entry: FeedEntry) -> bool {
    text_of(entry.name) == json::json_text(json::json_member(j, "name"@)) && entry.count
        == json::json_count(json::json_member(j, "count"@))
}

/// Whether `names` are the elements of a list, those that are texts.
pub open spec fn describes_names(list: Seq<Json>, names: Seq<Option<String>>) -> bool {
    list.len() == names.len() && forall|i: int|
        0 <= i < names.len() ==> text_of(#[trigger] names[i]) == json::json_text(list[i])
}

/// Whether `entries` are the lines that the elements of a list describe.
pub open spec fn describes_entries(list: Seq<Json>, entries: Seq<FeedEntry>) -> bool {
    list.len() == entries.len() && forall|i: int|
        0 <= i < entries.len() ==> describes_entry(list[i], #[trigger] entries[i])
}

/// Whether `deck` is the deck that a part of a document describes.
pub open spec fn describes_deck(j: Json, deck: FeedDeck) -> bool {
    &&& text_of(deck.name) == json::json_text(json::json_member(j, "name"@))
    &&& match (json::json_list(json::json_member(j, "commander"@)), deck.commander) {
        (Some(list), Some(names)) => describes_names(list, names@),
        (None, None) => true,
        _ => false,
    }
    &&& match (json::json_list(json::json_member(j, "main"@)), deck.main) {
        (Some(list), Some(entries)) => describes_entries(list, entries@),
        (None, None) => true,
        _ => false,
    }
}

/// Whether `decks` are the decks that the elements of a list describe.
pub open spec fn describes_decks(list: Seq<Json>, decks: Seq<FeedDeck>) -> bool {
    list.len() == decks.len() && forall|i: int|
        0 <= i < decks.len() ==> describes_deck(list[i], #[trigger] decks[i])
}

/// The list of decks of a feed.
pub open spec fn feed_list(outcome: Result<Json, Seq<char>>) -> Option<Seq<Json>> {
    match outcome {
        Ok(document) => json::json_list(json::json_member(document, "decks"@)),
        Err(_) => None,
    }
}

/// Whether `e` is what is wrong with a document as a feed.
pub open spec fn is_feed_error(outcome: Result<Json, Seq<char>>, e: FeedError) -> bool {
    match e {
        FeedError::NotJson { message } => outcome == Err::<Json, Seq<char>>(message@),
        FeedError::MissingDecks => outcome is Ok && feed_list(outcome) is None,
    }
}

/// A text of a document as a string.
fn owned_text(value: &serde_json::Value) -> (r: Option<String>)
    ensures
        text_of(r) == json::json_text(json::tree(*value)),
{
    match as_str(value) {
        Some(s) => Some(s.to_owned()),
        None => None,
    }
}

/// The commanders that a list names.
fn read_names(list: &Vec<serde_json::Value>) -> (r: Vec<Option<String>>)
    ensures
        describes_names(json::trees(list@), r@),
{
    let mut names: Vec<Option<String>> = Vec::new();
    let mut i: usize = 0;
    while i < list.len()
        invariant
            i <= list@.len(),
            names@.len() == i,
            forall|k: int|
                0 <= k < i ==> text_of(#[trigger] names@[k]) == json::json_text(
                    json::trees(list@)[k],
                ),
        decreases list@.len() - i,
    {
        assert(json::trees(list@)[i as int] == json::tree(list@[i as int]));
        names.push(owned_text(&list[i]));
        i += 1;
    }
    names
}

/// The lines of a deck that a list describes.
fn read_entries(list: &Vec<serde_json::Value>) -> (r: Vec<FeedEntry>)
    ensures
        describes_entries(json::trees(list@), r@),
{
    let mut entries: Vec<FeedEntry> = Vec::new();
    let mut i: usize = 0;
    while i < list.len()
        invariant
            i <= list@.len(),
            entries@.len() == i,
            forall|k: int|
                0 <= k < i ==> describes_entry(json::trees(list@)[k], #[trigger] entries@[k]),
        decreases list@.len() - i,
    {
        assert(json::trees(list@)[i as int] == json::tree(list@[i as int]));
        let name = owned_text(member(&list[i], "name"));
        let count: Option<u64> = as_u64(member(&list[i], "count"));
        entries.push(FeedEntry { name, count });
        i += 1;
    }
    entries
}

/// The deck that a part of a document describes.
fn read_deck(value: &serde_json::Value) -> (r: FeedDeck)
    ensures
        describes_deck(json::tree(*value), r),
{
    let name = owned_text(member(value, "name"));
    let commander = match as_array(member(value, "commander")) {
        Some(list) => Some(read_names(list)),
        None => None,
    };
    let main = match as_array(member(value, "main")) {
        Some(list) => Some(read_entries(list)),
        None => None,
    };
    FeedDeck { name, commander, main }
}

/// The decks of a feed, by its text.
pub fn read_feed(text: &str) -> (r: Result<Vec<FeedDeck>, FeedError>)
    ensures
        match r {
            Ok(decks) => feed_list(json::json_outcome(text@)) matches Some(list)
                && describes_decks(list, decks@),
            Err(e) => is_feed_error(json::json_outcome(text@), e),
        },
{
    let document = match parse_json(text) {
        Ok(value) => value,
        Err(message) => return Err(FeedError::NotJson { message }),
    };
    let list = match as_array(member(&document, "decks")) {
        Some(list) => list,
        None => return Err(FeedError::MissingDecks),
    };
    let mut decks: Vec<FeedDeck> = Vec::new();
    let mut i: usize = 0;
    while i < list.len()
        invariant
            i <= list@.len(),
            decks@.len() == i,
            forall|k: int|
                0 <= k < i ==> describes_deck(json::trees(list@)[k], #[trigger] decks@[k]),
        decreases list@.len() - i,
    {
        assert(json::trees(list@)[i as int] == json::tree(list@[i as int]));
        decks.push(read_deck(&list[i]));
        i += 1;
    }
    Ok(decks)
}

/// The first four playable decks of a feed, by its text, in order.
pub fn load_commander_decks(text: &str, known: &Vec<String>) -> (r: Result<
    Vec<PlayerDeckList>,
    FeedError,
>)
    ensures
        match r {
            Ok(lists) => feed_list(json::json_outcome(text@)) matches Some(list) && exists|
                decks: Seq<FeedDeck>,
            |
                #[trigger] describes_decks(list, decks) && are_first_four(decks, known@, lists@),
            Err(e) => is_feed_error(json::json_outcome(text@), e),
        },
{
    match read_feed(text) {
        Ok(decks) => Ok(select_commander_decks(&decks, known)),
        Err(e) => Err(e),
    }
}

// ---------------------------------------------------------------------------
// A feed that must be sound
// ---------------------------------------------------------------------------

/// A deck that was looked at: its name, its first commander, and its cards
/// where that commander is a known card.
#[derive(Debug)]
pub struct DeckVisit {
    pub name: String,
    pub primary: String,
    pub list: Option<PlayerDeckList>,
}

/// What is wrong with a deck of a feed that must be sound.
#[derive(Debug, Clone, Copy, PartialEq, Eq, Structural)]
pub enum DeckFault {
    /// A listed commander is no text.
    Commander { deck: usize },
    /// There is no main deck, or a line of it lacks a name or a count.
    Main { deck: usize },
}

/// Whether all commanders that a deck lists are texts.
pub open spec fn commanders_sound(deck: FeedDeck) -> bool {
    deck.commander matches Some(listed) ==> forall|i: int|
        0 <= i < listed@.len() ==> (#[trigger] listed@[i]) is Some
}

/// Whether a deck has a main deck whose lines all have a name and a count.
pub open spec fn main_sound(deck: FeedDeck) -> bool {
    deck.main matches Some(main) && forall|i: int|
        0 <= i < main@.len() ==> (#[trigger] main@[i]).name is Some && main@[i].count is Some
}

/// Whether the first commander of a deck is a known card.
pub open spec fn primary_known(deck: FeedDeck, known: Seq<String>) -> bool {
    texts(known).contains(commanders(deck)[0])
}

/// Whether a deck can be looked at. The main deck matters only where the first
/// commander is known.
pub open spec fn deck_sound(deck: FeedDeck, known: Seq<String>) -> bool {
    commanders_sound(deck) && (primary_known(deck, known) ==> main_sound(deck))
}

/// Whether `visit` is what a look at a deck finds.
pub open spec fn is_visit(deck: FeedDeck, known: Seq<String>, visit: DeckVisit) -> bool {
    &&& visit.name@ == deck_name(deck)
    &&& visit.primary@ == commanders(deck)[0]
    &&& match visit.list {
        Some(list) => primary_known(deck, known) && is_list(deck, list),
        None => !primary_known(deck, known),
    }
}

/// How many of the first `n` decks have a known first commander.
pub open spec fn known_among(decks: Seq<FeedDeck>, known: Seq<String>, n: int) -> nat
    decreases n,
{
    if n <= 0 {
        0
    } else if primary_known(decks[n - 1], known) {
        known_among(decks, known, n - 1) + 1
    } else {
        known_among(decks, known, n - 1)
    }
}

/// Whether the first `n` decks are looked at and found sound: four known ones
/// are enough, and nothing is looked at after them.
pub open spec fn sound_until(decks: Seq<FeedDeck>, known: Seq<String>, n: int) -> bool {
    0 <= n <= decks.len() && forall|i: int|
        0 <= i < n ==> #[trigger] deck_sound(decks[i], known) && known_among(decks, known, i) < 4
}

/// Whether `visits` are what looking at a feed finds.
pub open spec fn are_visits(
    decks: Seq<FeedDeck>,
    known: Seq<String>,
    visits: Seq<DeckVisit>,
) -> bool {
    let n = visits.len() as int;
    &&& sound_until(decks, known, n)
    &&& n == decks.len() || known_among(decks, known, n) == 4
    &&& forall|i: int| 0 <= i < n ==> is_visit(decks[i], known, #[trigger] visits[i])
}

/// Whether `fault` is the first that looking at a feed meets.
pub open spec fn is_first_fault(
    decks: Seq<FeedDeck>,
    known: Seq<String>,
    fault: DeckFault,
) -> bool {
    match fault {
        DeckFault::Commander { deck } => deck < decks.len() && sound_until(
            decks,
            known,
            deck as int,
        ) && known_among(decks, known, deck as int) < 4 && !commanders_sound(decks[deck as int]),
        DeckFault::Main { deck } => deck < decks.len() && sound_until(decks, known, deck as int)
            && known_among(decks, known, deck as int) < 4 && commanders_sound(
            decks[deck as int],
        ) && primary_known(decks[deck as int], known) && !main_sound(decks[deck as int]),
    }
}

/// Whether all commanders that a deck lists are texts.
fn has_sound_commanders(deck: &FeedDeck) -> (r: bool)
    ensures
        r == commanders_sound(*deck),
{
    if let Some(listed) = &deck.commander {
        let mut i: usize = 0;
        while i < listed.len()
            invariant
                deck.commander == Some(*listed),
                i <= listed@.len(),
                forall|k: int| 0 <= k < i ==> (#[trigger] listed@[k]) is Some,
            decreases listed@.len() - i,
        {
            if listed[i].is_none() {
                assert(listed@[i as int] is None);
                return false;
            }
            i += 1;
        }
    }
    true
}

/// Whether a deck has a main deck whose lines all have a name and a count.
fn has_sound_main(deck: &FeedDeck) -> (r: bool)
    ensures
        r == main_sound(*deck),
{
    match &deck.main {
        Some(main) => {
            let mut i: usize = 0;
            while i < main.len()
                invariant
                    deck.main == Some(*main),
                    i <= main@.len(),
                    forall|k: int|
                        0 <= k < i ==> (#[trigger] main@[k]).name is Some && main@[k].count is Some,
                decreases main@.len() - i,
            {
                if main[i].name.is_none() || main[i].count.is_none() {
                    assert(main@[i as int].name is None || main@[i as int].count is None);
                    return false;
                }
                i += 1;
            }
            true
        },
        None => false,
    }
}

/// A deck whose listed commanders are texts has a commander.
proof fn lemma_sound_deck_has_commander(deck: FeedDeck)
    requires
        commanders_sound(deck),
    ensures
        commanders(deck).len() > 0,
{
    if let Some(listed) = deck.commander {
        if listed@.len() > 0 {
            assert(listed@.last() == listed@[listed@.len() - 1]);
            assert(listed@.last() is Some);
        }
    }
}

/// Looks at the decks of a feed that must be sound, until four with a known
/// first commander are found. The first fault ends the look.
pub fn visit_decks(decks: &Vec<FeedDeck>, known: &Vec<String>) -> (r: Result<
    Vec<DeckVisit>,
    DeckFault,
>)
    ensures
        match r {
            Ok(visits) => are_visits(decks@, known@, visits@),
            Err(fault) => is_first_fault(decks@, known@, fault),
        },
{
    let mut visits: Vec<DeckVisit> = Vec::new();
    let mut found: usize = 0;
    let mut i: usize = 0;
    while i < decks.len() && found < 4
        invariant
            i <= decks@.len(),
            visits@.len() == i,
            sound_until(decks@, known@, i as int),
            found == known_among(decks@, known@, i as int),
            found <= 4,
            forall|k: int| 0 <= k < i ==> is_visit(decks@[k], known@, #[trigger] visits@[k]),
        decreases decks@.len() - i,
    {
        let deck = &decks[i];
        if !has_sound_commanders(deck) {
            return Err(DeckFault::Commander { deck: i });
        }
        proof {
            lemma_sound_deck_has_commander(*deck);
        }
        let name = match &deck.name {
            Some(s) => s.clone(),
            None => "<unnamed>".to_owned(),
        };
        let names = commander_names(deck);
        assert(texts(names@)[0] == names@[0]@);
        let primary = names[0].clone();
        let is_known: bool = contains_text(known, &primary);
        if is_known && !has_sound_main(deck) {
            return Err(DeckFault::Main { deck: i });
        }
        proof {
            assert(deck_sound(decks@[i as int], known@));
            assert forall|k: int| 0 <= k < i + 1 implies #[trigger] deck_sound(decks@[k], known@)
                && known_among(decks@, known@, k) < 4 by {
                if k < i {
                    assert(deck_sound(decks@[k], known@));
                }
            }
            assert(sound_until(decks@, known@, i + 1));
        }
        let list = deck_list(deck, known);
        visits.push(DeckVisit { name, primary, list });
        if is_known {
            found += 1;
        }
        i += 1;
    }
    Ok(visits)
}

proof fn lemma_chosen_grows(decks: Seq<FeedDeck>, known: Seq<String>, m: int, n: int)
    requires
        0 <= m <= n <= decks.len(),
    ensures
        chosen(decks, known, 4, m).is_prefix_of(chosen(decks, known, 4, n)),
    decreases n - m,
{
    let head = chosen(decks, known, 4, m);
    if m < n {
        lemma_chosen_grows(decks, known, m, n - 1);
        let middle = chosen(decks, known, 4, n - 1);
        let whole = chosen(decks, known, 4, n);
        assert(head =~= middle.subrange(0, head.len() as int));
        assert(head =~= whole.subrange(0, head.len() as int));
    } else {
        assert(head =~= head.subrange(0, head.len() as int));
    }
}

/// Fewer decks of a sound feed are sound.
proof fn lemma_sound_prefix(decks: Seq<FeedDeck>, known: Seq<String>, m: int, n: int)
    requires
        sound_until(decks, known, n),
        0 <= m <= n,
    ensures
        sound_until(decks, known, m),
{
    assert forall|k: int| 0 <= k < m implies #[trigger] deck_sound(decks[k], known) && known_among(
        decks,
        known,
        k,
    ) < 4 by {
        assert(deck_sound(decks[k], known));
    }
}

proof fn lemma_sound_decks_are_chosen(decks: Seq<FeedDeck>, known: Seq<String>, m: int)
    requires
        sound_until(decks, known, m),
    ensures
        chosen(decks, known, 4, m).len() == known_among(decks, known, m),
    decreases m,
{
    if m > 0 {
        assert(deck_sound(decks[m - 1], known));
        lemma_sound_deck_has_commander(decks[m - 1]);
        lemma_sound_prefix(decks, known, m - 1, m);
        lemma_sound_decks_are_chosen(decks, known, m - 1);
    }
}

/// In a sound feed both ways of reading it agree: a deck that a look finds
/// playable is among the first four playable ones, at its place.
pub proof fn law_sound_feed_reads_alike(
    decks: Seq<FeedDeck>,
    known: Seq<String>,
    visits: Seq<DeckVisit>,
    i: int,
)
    requires
        are_visits(decks, known, visits),
        0 <= i < visits.len(),
        visits[i].list is Some,
    ensures
        ({
            let picked = chosen(decks, known, 4, decks.len() as int);
            let place = known_among(decks, known, i) as int;
            place < picked.len() && picked[place] == decks[i]
        }),
{
    assert(is_visit(decks[i], known, visits[i]));
    assert(deck_sound(decks[i], known));
    lemma_sound_deck_has_commander(decks[i]);
    lemma_sound_prefix(decks, known, i, visits.len() as int);
    lemma_sound_decks_are_chosen(decks, known, i);
    lemma_chosen_grows(decks, known, i + 1, decks.len() as int);
    let next = chosen(decks, known, 4, i + 1);
    let picked = chosen(decks, known, 4, decks.len() as int);
    assert(next == chosen(decks, known, 4, i).push(decks[i]));
    assert(next == picked.subrange(0, next.len() as int));
    let place = known_among(decks, known, i) as int;
    assert(next[place] == decks[i]);
    assert(picked.subrange(0, next.len() as int)[place] == picked[place]);
}

// ---------------------------------------------------------------------------
// What reading a feed promises
// ---------------------------------------------------------------------------

/// What `commander_names` returns are the listed commanders that are texts, in
/// order, and the name of the deck where none is listed.
pub proof fn law_commanders_are_listed_or_the_deck(deck: &FeedDeck, r: Vec<String>)
    requires
        call_ensures(commander_names, (deck,), r),
    ensures
        deck.commander is None ==> r@.len() == 1 && r@[0]@ == deck_name(*deck),
        deck.commander matches Some(listed) ==> {
            &&& listed@.len() == 0 ==> r@.len() == 1 && r@[0]@ == deck_name(*deck)
            &&& listed@.len() > 0 ==> texts(r@) == present(listed@)
        },
        deck.name matches Some(s) ==> deck_name(*deck) == s@,
        deck.name is None ==> deck_name(*deck) == "<unnamed>"@,
{
    assert(texts(r@).len() == r@.len());
    if r@.len() > 0 {
        assert(texts(r@)[0] == r@[0]@);
    }
}

/// One more listed commander is kept exactly where it is a text.
pub proof fn law_only_texts_are_commanders(v: Seq<Option<String>>, s: Option<String>)
    ensures
        s matches Some(t) ==> present(v.push(s)) == present(v).push(t@),
        s is None ==> present(v.push(s)) == present(v),
        present(Seq::<Option<String>>::empty()).len() == 0,
{
    assert(v.push(s).drop_last() =~= v);
}

/// One more line of a deck adds its card as often as it counts, unless the card
/// is a commander or the line lacks a name or a count.
pub proof fn law_lines_count_their_cards(
    entries: Seq<FeedEntry>,
    e: FeedEntry,
    leaders: Seq<Seq<char>>,
)
    ensures
        ({
            let before = cards(entries, leaders);
            let after = cards(entries.push(e), leaders);
            match (e.name, e.count) {
                (Some(name), Some(n)) => if leaders.contains(name@) {
                    after == before
                } else {
                    &&& after.len() == before.len() + n
                    &&& after.take(before.len() as int) == before
                    &&& forall|i: int|
                        before.len() <= i < after.len() ==> #[trigger] after[i] == name@
                },
                _ => after == before,
            }
        }),
        cards(Seq::<FeedEntry>::empty(), leaders).len() == 0,
{
    assert(entries.push(e).drop_last() =~= entries);
    let before = cards(entries, leaders);
    let after = cards(entries.push(e), leaders);
    assert(before.len() <= after.len() ==> after.take(before.len() as int) =~= before);
}

/// What `deck_list` returns: a deck exactly where the first commander is a known
/// card and there is a main deck; and then its commanders and its cards.
pub proof fn law_playable_decks_have_a_known_commander(
    deck: &FeedDeck,
    known: &Vec<String>,
    r: Option<PlayerDeckList>,
)
    requires
        call_ensures(deck_list, (deck, known), r),
    ensures
        r is Some <==> commanders(*deck).len() > 0 && texts(known@).contains(commanders(*deck)[0])
            && deck.main is Some,
        r matches Some(list) ==> {
            &&& texts(list.commander@) == commanders(*deck)
            &&& texts(list.main_deck@) == cards(deck.main->Some_0@, commanders(*deck))
        },
{
}

/// The decks that are chosen are playable ones of the feed, in its order, at
/// most the limit; and while there are fewer, no playable deck is passed over.
pub proof fn law_first_playable_decks_are_chosen(
    decks: Seq<FeedDeck>,
    known: Seq<String>,
    limit: nat,
    n: int,
)
    requires
        0 <= n < decks.len(),
    ensures
        ({
            let before = chosen(decks, known, limit, n);
            let after = chosen(decks, known, limit, n + 1);
            let plays = commanders(decks[n]).len() > 0 && texts(known).contains(
                commanders(decks[n])[0],
            ) && decks[n].main is Some;
            &&& before.len() < limit && plays ==> after == before.push(decks[n])
            &&& before.len() >= limit || !plays ==> after == before
        }),
        chosen(decks, known, limit, 0).len() == 0,
{
}

/// What `select_commander_decks` returns are the first four playable decks, in
/// order.
pub proof fn law_four_decks_are_selected(
    decks: &Vec<FeedDeck>,
    known: &Vec<String>,
    r: Vec<PlayerDeckList>,
    i: int,
)
    requires
        call_ensures(select_commander_decks, (decks, known), r),
        0 <= i < r@.len(),
    ensures
        ({
            let picked = chosen(decks@, known@, 4, decks@.len() as int);
            &&& r@.len() == picked.len()
            &&& r@.len() <= 4
            &&& texts(r@[i].commander@) == commanders(picked[i])
            &&& picked[i].main matches Some(main) && texts(r@[i].main_deck@) == cards(
                main@,
                commanders(picked[i]),
            )
        }),
{
    lemma_at_most(decks@, known@, 4, decks@.len() as int);
    assert(is_list(chosen(decks@, known@, 4, decks@.len() as int)[i], r@[i]));
}

/// No more decks are chosen than the limit.
proof fn lemma_at_most(decks: Seq<FeedDeck>, known: Seq<String>, limit: nat, n: int)
    ensures
        chosen(decks, known, limit, n).len() <= limit,
    decreases n,
{
    if n > 0 {
        lemma_at_most(decks, known, limit, n - 1);
    }
}

/// What `read_feed` returns: the decks that the member `decks` of the document
/// lists, one for each element; an error exactly where the text is no document
/// or has no such list.
pub proof fn law_feed_is_its_list_of_decks(
    text: &str,
    r: Result<Vec<FeedDeck>, FeedError>,
    document: Json,
)
    requires
        call_ensures(read_feed, (text,), r),
        json::json_outcome(text@) == Ok::<Json, Seq<char>>(document),
    ensures
        ({
            let list = match document {
                Json::Object(members) => if members.contains_key("decks"@) {
                    match members["decks"@] {
                        Json::Array(elements) => Some(elements),
                        _ => None,
                    }
                } else {
                    None
                },
                _ => None,
            };
            &&& r is Ok <==> list is Some
            &&& r matches Ok(decks) ==> decks@.len() == list->Some_0.len() && forall|i: int|
                0 <= i < decks@.len() ==> describes_deck(
                    list->Some_0[i],
                    #[trigger] decks@[i],
                )
            &&& r matches Err(e) ==> e is MissingDecks
        }),
{
}

/// A text that is no document is refused with the message of the reader.
pub proof fn law_feed_must_be_a_document(
    text: &str,
    r: Result<Vec<FeedDeck>, FeedError>,
    message: Seq<char>,
)
    requires
        call_ensures(read_feed, (text,), r),
        json::json_outcome(text@) == Err::<Json, Seq<char>>(message),
    ensures
        r matches Err(FeedError::NotJson { message: m }) && m@ == message,
{
}

/// A deck is described by the members of its object: its name where that is a
/// text, its commanders and its main deck where these are arrays, element by
/// element.
pub proof fn law_decks_are_described_by_their_members(
    members: Map<Seq<char>, Json>,
    deck: FeedDeck,
)
    requires
        describes_deck(Json::Object(members), deck),
        members.contains_key("name"@),
        members.contains_key("commander"@),
        members.contains_key("main"@),
    ensures
        match members["name"@] {
            Json::Text(s) => deck.name matches Some(n) && n@ == s,
            _ => deck.name is None,
        },
        match members["commander"@] {
            Json::Array(list) => deck.commander matches Some(names) && names@.len() == list.len()
                && forall|i: int|
                0 <= i < list.len() ==> (match #[trigger] list[i] {
                    Json::Text(s) => names@[i] matches Some(n) && n@ == s,
                    _ => names@[i] is None,
                }),
            _ => deck.commander is None,
        },
        match members["main"@] {
            Json::Array(list) => deck.main matches Some(lines) && lines@.len() == list.len()
                && forall|i: int|
                0 <= i < list.len() ==> describes_entry(#[trigger] list[i], lines@[i]),
            _ => deck.main is None,
        },
{
    if let Json::Array(list) = members["commander"@] {
        let names = deck.commander->Some_0;
        assert forall|i: int| 0 <= i < list.len() implies (match #[trigger] list[i] {
            Json::Text(s) => names@[i] matches Some(n) && n@ == s,
            _ => names@[i] is None,
        }) by {
            assert(text_of(names@[i]) == json::json_text(list[i]));
        }
    }
    if let Json::Array(list) = members["main"@] {
        let lines = deck.main->Some_0;
        assert forall|i: int| 0 <= i < list.len() implies describes_entry(
            #[trigger] list[i],
            lines@[i],
        ) by {
            assert(describes_entry(list[i], lines@[i]));
        }
    }
}

/// A line is described by the members of its object: its name where that is a
/// text, its count where that is a number that counts.
pub proof fn law_lines_are_described_by_their_members(
    members: Map<Seq<char>, Json>,
    entry: FeedEntry,
)
    requires
        describes_entry(Json::Object(members), entry),
    ensures
        entry.name is Some <==> members.contains_key("name"@) && members["name"@] is Text,
        entry.name matches Some(n) ==> members["name"@] == Json::Text(n@),
        entry.count is Some ==> members.contains_key("count"@) && members["count"@]
            == Json::Number(entry.count),
        members.contains_key("count"@) ==> (members["count"@] matches Json::Number(n)
            ==> entry.count == n),
{
}

/// What `load_commander_decks` returns are the first four playable decks of the
/// feed that the text is, or its error.
pub proof fn law_loaded_decks_are_the_first_four(
    text: &str,
    known: &Vec<String>,
    r: Result<Vec<PlayerDeckList>, FeedError>,
)
    requires
        call_ensures(load_commander_decks, (text, known), r),
    ensures
        r is Ok <==> feed_list(json::json_outcome(text@)) is Some,
        r matches Ok(lists) ==> exists|decks: Seq<FeedDeck>| #[trigger]
            describes_decks(feed_list(json::json_outcome(text@))->Some_0, decks) && are_first_four(
                decks,
                known@,
                lists@,
            ),
{
}

/// What `visit_decks` returns: a look at each deck from the first on, until four
/// have a known first commander or none is left; the first fault that it meets
/// where there is one.
pub proof fn law_visits_end_with_four_known_decks(
    decks: &Vec<FeedDeck>,
    known: &Vec<String>,
    r: Result<Vec<DeckVisit>, DeckFault>,
    i: int,
)
    requires
        call_ensures(visit_decks, (decks, known), r),
    ensures
        r matches Ok(visits) ==> {
            &&& visits@.len() <= decks@.len()
            &&& visits@.len() < decks@.len() ==> known_among(
                decks@,
                known@,
                visits@.len() as int,
            ) == 4
            &&& 0 <= i < visits@.len() ==> {
                let d = decks@[i];
                let found = texts(known@).contains(commanders(d)[0]);
                &&& visits@[i].name@ == deck_name(d)
                &&& visits@[i].primary@ == commanders(d)[0]
                &&& visits@[i].list is Some <==> found
                &&& commanders_sound(d)
                &&& found ==> main_sound(d)
            }
        },
        r matches Err(DeckFault::Commander { deck }) ==> deck < decks@.len() && !commanders_sound(
            decks@[deck as int],
        ),
        r matches Err(DeckFault::Main { deck }) ==> deck < decks@.len() && commanders_sound(
            decks@[deck as int],
        ) && !main_sound(decks@[deck as int]) && texts(known@).contains(
            commanders(decks@[deck as int])[0],
        ),
{
    if let Ok(visits) = r {
        if 0 <= i < visits@.len() {
            assert(is_visit(decks@[i], known@, visits@[i]));
            assert(deck_sound(decks@[i], known@));
        }
    }
}

/// A deck with a known first commander counts toward the four, any other does
/// not.
pub proof fn law_known_decks_are_counted(decks: Seq<FeedDeck>, known: Seq<String>, n: int)
    requires
        0 <= n < decks.len(),
    ensures
        known_among(decks, known, n + 1) == known_among(decks, known, n) + (if texts(
            known,
        ).contains(commanders(decks[n])[0]) {
            1int
        } else {
            0int
        }),
        known_among(decks, known, 0) == 0,
{
}

/// Commanders are sound exactly where each listed one is a text, a main deck
/// where there is one and each line has a name and a count.
pub proof fn law_sound_decks_are_complete(deck: FeedDeck, i: int)
    ensures
        deck.commander is None ==> commanders_sound(deck),
        deck.commander matches Some(listed) ==> (0 <= i < listed@.len() && listed@[i] is None
            ==> !commanders_sound(deck)),
        deck.main is None ==> !main_sound(deck),
        deck.main matches Some(main) ==> (0 <= i < main@.len() && (main@[i].name is None
            || main@[i].count is None) ==> !main_sound(deck)),
        deck.main matches Some(main) ==> (main@.len() == 0 ==> main_sound(deck)),
{
}

} // verus!
