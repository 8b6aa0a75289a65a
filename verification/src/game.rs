//! Plain game data: what the rules engine produces and consumes, as the service stores and shows it.
use crate::text;
use std::collections::{BTreeMap, BTreeSet};
use vstd::prelude::*;

verus! {

/// The 128-bit value of a game's UUID.
pub type GameId = u128;

/// The 128-bit value of a player's UUID.
pub type PlayerId = u128;

/// A moment, in nanoseconds since the Unix epoch.
#[derive(Debug, Clone, Copy, PartialEq, Eq, Structural)]
pub struct Timestamp {
    pub unix_nanos: i128,
}

/// Division that rounds toward zero.
pub open spec fn truncated_quotient(value: int, divisor: int) -> int
    recommends
        divisor > 0,
{
    if value >= 0 {
        value / divisor
    } else {
        -((-value) / divisor)
    }
}

pub open spec fn millis_of(moment: Timestamp) -> int {
    truncated_quotient(moment.unix_nanos as int, 1_000_000)
}

/// The moment in whole milliseconds, where a signed 64-bit number can hold it.
pub open spec fn millis_at(moment: Timestamp) -> Option<i64> {
    if i64::MIN <= millis_of(moment) <= i64::MAX {
        Some(millis_of(moment) as i64)
    } else {
        None
    }
}

/// Whole milliseconds since the epoch, rounded toward zero.
pub fn timestamp_ms(moment: Timestamp) -> (millis: Option<i64>)
    ensures
        millis == millis_at(moment),
{
    match moment.unix_nanos.checked_div(1_000_000) {
        Some(quotient) => {
            if i64::MIN as i128 <= quotient && quotient <= i64::MAX as i128 {
                Some(quotient as i64)
            } else {
                None
            }
        },
        None => None,
    }
}

/// A length of time in nanoseconds.
#[derive(Debug, Clone, Copy, PartialEq, Eq, Structural)]
pub struct Span {
    pub nanos: i128,
}

impl Span {
    /// Whole seconds fit in a signed 64-bit number.
    pub open spec fn valid(self) -> bool {
        -9_223_372_036_854_775_808 * 1_000_000_000 <= self.nanos <= 9_223_372_036_854_775_807
            * 1_000_000_000
    }

    pub fn seconds(seconds: i64) -> (span: Span)
        ensures
            span.nanos == seconds * 1_000_000_000,
            span.valid(),
    {
        Span { nanos: seconds as i128 * 1_000_000_000 }
    }
}

/// Whether a calendar date of the years -9999 to 9999 (UTC) has this moment.
pub open spec fn on_calendar(unix_nanos: int) -> bool {
    -377_705_116_800 * 1_000_000_000 <= unix_nanos < 253_402_300_800 * 1_000_000_000
}

/// The moment `span` after `moment`, where both are on the calendar.
pub open spec fn moment_after(moment: Timestamp, span: Span) -> Option<Timestamp> {
    if on_calendar(moment.unix_nanos as int) && on_calendar(moment.unix_nanos + span.nanos) {
        Some(Timestamp { unix_nanos: (moment.unix_nanos + span.nanos) as i128 })
    } else {
        None
    }
}

/// `time::OffsetDateTime::checked_add` in UTC: the sum where moment and sum lie in the years -9999
/// to 9999, otherwise nothing.
#[verifier::external_body]
fn checked_add(unix_nanos: i128, span_nanos: i128) -> (sum: Option<i128>)
    requires
        (Span { nanos: span_nanos }).valid(),
    ensures
        sum == (if on_calendar(unix_nanos as int) && on_calendar(unix_nanos + span_nanos) {
            Some((unix_nanos + span_nanos) as i128)
        } else {
            None
        }),
{
    time::OffsetDateTime::from_unix_timestamp_nanos(unix_nanos)
        .ok()
        .and_then(|moment| moment.checked_add(time::Duration::nanoseconds_i128(span_nanos)))
        .map(|moment| moment.unix_timestamp_nanos())
}

impl Timestamp {
    /// The moment `span` later.
    pub fn plus(self, span: Span) -> (later: Option<Timestamp>)
        requires
            span.valid(),
        ensures
            later == moment_after(self, span),
    {
        match checked_add(self.unix_nanos, span.nanos) {
            Some(unix_nanos) => Some(Timestamp { unix_nanos }),
            None => None,
        }
    }
}

/// One board square.
#[derive(Debug, Clone, Copy, PartialEq, Eq, Structural)]
pub struct Coordinate {
    pub x: u8,
    pub y: u8,
}

impl Coordinate {
    /// The number by which maps order and find a square: column first, then row.
    pub open spec fn spec_key(self) -> u16 {
        (self.x * 256 + self.y) as u16
    }

    pub open spec fn spec_from_key(key: u16) -> Coordinate {
        Coordinate { x: (key / 256) as u8, y: (key % 256) as u8 }
    }

    pub fn new(x: u8, y: u8) -> (square: Coordinate)
        ensures
            square == (Coordinate { x, y }),
    {
        Coordinate { x, y }
    }

    #[verifier::when_used_as_spec(spec_key)]
    pub fn key(self) -> (key: u16)
        ensures
            key == self.spec_key(),
            key == self.x * 256 + self.y,
    {
        self.x as u16 * 256 + self.y as u16
    }

    pub fn from_key(key: u16) -> (square: Coordinate)
        ensures
            square == Coordinate::spec_from_key(key),
            square.spec_key() == key,
    {
        Coordinate { x: (key / 256) as u8, y: (key % 256) as u8 }
    }
}

/// A square and its key determine each other.
pub broadcast proof fn square_of_key(square: Coordinate)
    ensures
        Coordinate::spec_from_key(#[trigger] square.spec_key()) == square,
{
}

/// A key and its square determine each other.
pub broadcast proof fn key_of_square(key: u16)
    ensures
        (#[trigger] Coordinate::spec_from_key(key)).spec_key() == key,
{
}

/// What a tile shows.
#[derive(Debug, Clone, Copy, PartialEq, Eq, Structural)]
pub enum TileFace {
    Letter(char),
    Blank,
}

/// One physical tile.
#[derive(Debug, Clone, Copy, PartialEq, Eq, Structural)]
pub struct Tile {
    pub id: u16,
    pub face: TileFace,
    pub points: u8,
}

/// A tile on the board with the letter it stands for.
#[derive(Debug, Clone, Copy, PartialEq, Eq, Structural)]
pub struct BoardTile {
    pub tile: Tile,
    pub letter: char,
}

/// A square that multiplies a letter's or a word's points.
#[derive(Debug, Clone, Copy, PartialEq, Eq, Structural)]
pub enum PremiumSquare {
    Letter(u8),
    Word(u8),
}

/// How often a face occurs in the bag and what it scores.
#[derive(Debug, Clone, Copy, PartialEq, Eq, Structural)]
pub struct TileDefinition {
    pub face: TileFace,
    pub count: u8,
    pub points: u8,
}

/// A named, versioned rule set.
#[derive(Debug, Clone, PartialEq, Eq)]
pub struct RuleProfileRef {
    pub id: String,
    pub version: u32,
}

/// A named, versioned word list with its checksum.
#[derive(Debug, Clone, PartialEq, Eq)]
pub struct DictionaryRef {
    pub id: String,
    pub version: u32,
    pub checksum: String,
}

/// What is fixed about a game when it starts.
#[derive(Debug, Clone, PartialEq, Eq)]
pub struct GameMetadata {
    pub id: GameId,
    pub rules: RuleProfileRef,
    pub dictionary: DictionaryRef,
    pub created_at: Timestamp,
}

/// Complete immutable rules of one game.
#[derive(Debug, Clone, PartialEq, Eq)]
pub struct RuleProfile {
    pub reference: RuleProfileRef,
    pub board_size: u8,
    pub start: Coordinate,
    /// Premiums by square key.
    pub premiums: BTreeMap<u16, PremiumSquare>,
    pub tiles: Vec<TileDefinition>,
    pub rack_size: u8,
    pub full_rack_bonus: u16,
    pub minimum_tiles_for_exchange: u8,
    pub scoreless_turn_limit: u8,
    pub dictionary_id: String,
}

#[derive(Debug, Clone, Copy, PartialEq, Eq, Structural)]
pub enum GameStatus {
    Active,
    Completed,
}

/// Why a game ended; `Legacy` marks games stored before reasons were recorded.
#[derive(Debug, Clone, Copy, PartialEq, Eq, Structural)]
pub enum CompletionReason {
    Legacy,
    RackEmptied,
    ConsecutivePasses,
    Resignation,
}

/// One canonical fact in a game's journal.
#[derive(Debug, Clone, PartialEq, Eq)]
pub enum GameEvent {
    GameStarted {
        metadata: GameMetadata,
        players: Vec<PlayerId>,
        first_player: PlayerId,
        rules: RuleProfile,
        racks: BTreeMap<PlayerId, Vec<Tile>>,
        bag: Vec<Tile>,
    },
    TilesPlayed {
        player_id: PlayerId,
        /// Placed tiles by square key.
        placements: BTreeMap<u16, BoardTile>,
        score: u32,
        drawn: Vec<Tile>,
    },
    TilesExchanged { player_id: PlayerId, returned: Vec<Tile>, drawn: Vec<Tile> },
    TurnPassed { player_id: PlayerId },
    GameResigned { player_id: PlayerId, winner: Option<PlayerId> },
    GameCompleted {
        scores: BTreeMap<PlayerId, u32>,
        winner: Option<PlayerId>,
        leaders: BTreeSet<PlayerId>,
        reason: CompletionReason,
    },
}

/// Why events cannot be replayed.
#[derive(Debug, Clone, PartialEq, Eq)]
pub enum ReplayError {
    /// The game does not begin with its start.
    MissingStart,
    /// There is no event before the one that needs a game.
    EmptyJournal,
    /// A state or an event lacks the score of a player.
    MissingScore,
    /// The rules engine refused an event, in its words.
    Refused(String),
}

impl ReplayError {
    /// The error in words, where it is not for the rules engine to choose them.
    pub open spec fn message_of(self) -> Option<Seq<char>> {
        match self {
            ReplayError::MissingStart => None,
            ReplayError::EmptyJournal => None,
            ReplayError::MissingScore => Some("the score of a player is missing"@),
            ReplayError::Refused(reason) => Some(reason@),
        }
    }

    pub fn message(self) -> (message: Option<String>)
        ensures
            text::opt_view(message) == self.message_of(),
    {
        match self {
            ReplayError::MissingStart => None,
            ReplayError::EmptyJournal => None,
            ReplayError::MissingScore => Some("the score of a player is missing".to_owned()),
            ReplayError::Refused(reason) => Some(reason),
        }
    }
}

/// The state of a game after some prefix of its journal.
#[derive(Debug, Clone, PartialEq, Eq)]
pub struct GameState {
    pub metadata: GameMetadata,
    pub rules: RuleProfile,
    pub players: Vec<PlayerId>,
    pub active_players: BTreeSet<PlayerId>,
    pub active_player: PlayerId,
    /// Committed tiles by square key.
    pub board: BTreeMap<u16, BoardTile>,
    pub racks: BTreeMap<PlayerId, Vec<Tile>>,
    pub bag: Vec<Tile>,
    pub scores: BTreeMap<PlayerId, u32>,
    pub scoreless_turns: u8,
    pub consecutive_passes: usize,
    pub winner: Option<PlayerId>,
    pub leaders: BTreeSet<PlayerId>,
    pub completion_reason: Option<CompletionReason>,
    pub status: GameStatus,
    pub revision: u64,
}

impl GameState {
    /// Every player has a score.
    pub open spec fn scored(self) -> bool {
        forall|i: int|
            0 <= i < self.players@.len() ==> self.scores@.contains_key(#[trigger] self.players@[i])
    }

    pub fn is_scored(&self) -> (scored: bool)
        ensures
            scored == self.scored(),
    {
        broadcast use vstd::std_specs::btree::group_btree_axioms;

        let mut at: usize = 0;
        while at < self.players.len()
            invariant
                at <= self.players@.len(),
                forall|i: int|
                    0 <= i < at ==> self.scores@.contains_key(#[trigger] self.players@[i]),
            decreases self.players@.len() - at,
        {
            let player: PlayerId = self.players[at];
            assert(player == self.players@[at as int]);
            if !self.scores.contains_key(&player) {
                return false;
            }
            at = at + 1;
        }
        true
    }
}

/// One tile that a player proposes to place.
#[derive(Debug, Clone, Copy, PartialEq, Eq, Structural)]
pub struct Placement {
    pub tile_id: u16,
    pub coordinate: Coordinate,
    pub blank_letter: Option<char>,
}

/// What a player asks the rules engine to do.
#[derive(Debug, Clone, PartialEq, Eq)]
pub enum GameCommand {
    Play { placements: Vec<Placement> },
    Exchange { tile_ids: Vec<u16> },
    Pass,
    Resign,
}

} // verus!
