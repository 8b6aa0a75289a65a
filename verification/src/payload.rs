//! Persisted payload formats of events and states, and how they are read and written.
//!
//! A written format never changes. Format 2 knows two players and one set of rules; format 3 is the
//! one that is written now. Both list squares explicitly.
use crate::game::{
    self, BoardTile, CompletionReason, Coordinate, GameEvent, GameMetadata, GameState, GameStatus,
    PlayerId, PremiumSquare, RuleProfile, RuleProfileRef, Tile, TileDefinition,
};
use crate::order::{self, players_keys, squares_keys};
use std::collections::{BTreeMap, BTreeSet};
use vstd::prelude::*;

verus! {

/// A value on a square.
#[derive(Debug, Clone, Copy, PartialEq, Eq)]
pub struct CoordinateEntry<T> {
    pub coordinate: Coordinate,
    pub value: T,
}

/// The values of a map by square, by column and then by row.
pub open spec fn entries_of<T>(map: Map<u16, T>) -> Seq<CoordinateEntry<T>> {
    let keys = order::ascending_squares(map.dom());
    Seq::new(
        keys.len(),
        |i: int|
            CoordinateEntry { coordinate: Coordinate::spec_from_key(keys[i]), value: map[keys[i]] },
    )
}

/// The map that a list of entries stands for; a later entry replaces an earlier one.
pub open spec fn map_of<T>(entries: Seq<CoordinateEntry<T>>) -> Map<u16, T>
    decreases entries.len(),
{
    if entries.len() == 0 {
        Map::empty()
    } else {
        map_of(entries.drop_last()).insert(
            entries.last().coordinate.spec_key(),
            entries.last().value,
        )
    }
}

proof fn map_of_prefix<T>(map: Map<u16, T>, count: int)
    requires
        0 <= count <= order::ascending_squares(map.dom()).len(),
    ensures
        forall|key: u16| #[trigger]
            map_of(entries_of(map).take(count)).contains_key(key) <==> order::ascending_squares(
                map.dom(),
            ).take(count).contains(key),
        forall|key: u16| #[trigger]
            map_of(entries_of(map).take(count)).contains_key(key) ==> map_of(
                entries_of(map).take(count),
            )[key] == map[key],
    decreases count,
{
    let keys = order::ascending_squares(map.dom());
    let entries = entries_of(map);
    if count > 0 {
        map_of_prefix(map, count - 1);
        let key = keys[count - 1];
        assert(entries.take(count).drop_last() =~= entries.take(count - 1));
        assert(entries.take(count).last() == entries[count - 1]);
        game::key_of_square(key);
        assert(entries[count - 1].coordinate.spec_key() == key);
        let before = map_of(entries.take(count - 1));
        assert(map_of(entries.take(count)) == before.insert(key, map[key]));
        assert(keys.take(count) =~= keys.take(count - 1).push(key));
        assert forall|other: u16| keys.take(count).contains(other) <==> keys.take(
            count - 1,
        ).contains(other) || other == key by {
            let less = keys.take(count - 1);
            if less.contains(other) {
                let i = choose|i: int| 0 <= i < less.len() && less[i] == other;
                assert(less.push(key)[i] == other);
            }
            if other == key {
                assert(less.push(key)[count - 1] == other);
            }
            if less.push(key).contains(other) && other != key {
                let i = choose|i: int| 0 <= i < less.push(key).len() && less.push(key)[i] == other;
                assert(less[i] == other);
            }
        }
        assert forall|other: u16| #[trigger]
            map_of(entries.take(count)).contains_key(other) <==> keys.take(count).contains(
                other,
            ) by {
            assert(before.contains_key(other) <==> keys.take(count - 1).contains(other));
        }
    } else {
        assert(entries.take(count).len() == 0);
        assert(keys.take(count).len() == 0);
    }
}

/// Listing a map and reading the list gives the map back.
pub proof fn entries_round_trip<T>(map: Map<u16, T>)
    ensures
        map_of(entries_of(map)) == map,
{
    let keys = order::ascending_squares(map.dom());
    order::ascending_squares_are_listed(map.dom());
    map_of_prefix(map, keys.len() as int);
    assert(entries_of(map).take(keys.len() as int) =~= entries_of(map));
    assert(keys.take(keys.len() as int) =~= keys);
    assert forall|key: u16| map_of(entries_of(map)).contains_key(key) <==> map.contains_key(key) by {
        assert(keys.to_set().contains(key) <==> map.dom().contains(key));
    }
    assert(map_of(entries_of(map)) =~= map);
}

fn coordinate_entries<T: Copy>(map: &BTreeMap<u16, T>) -> (entries: Vec<CoordinateEntry<T>>)
    ensures
        entries@ == entries_of(map@),
{
    broadcast use vstd::std_specs::btree::group_btree_axioms;

    let keys = squares_keys(map);
    let mut entries: Vec<CoordinateEntry<T>> = Vec::new();
    let mut at: usize = 0;
    while at < keys.len()
        invariant
            at <= keys@.len(),
            keys@ == order::ascending_squares(map@.dom()),
            order::lists_squares(keys@, map@.dom()),
            entries@ == entries_of(map@).take(at as int),
        decreases keys@.len() - at,
    {
        let key: u16 = keys[at];
        assert(keys@.to_set().contains(key)) by {
            assert(keys@.contains(keys@[at as int]));
        }
        match map.get(&key) {
            Some(value) => {
                entries.push(
                    CoordinateEntry { coordinate: Coordinate::from_key(key), value: *value },
                );
            },
            None => {
                assert(false);
            },
        }
        at = at + 1;
        assert(entries@ =~= entries_of(map@).take(at as int));
    }
    assert(entries_of(map@).take(at as int) =~= entries_of(map@));
    entries
}

fn coordinate_map<T: Copy>(entries: &Vec<CoordinateEntry<T>>) -> (map: BTreeMap<u16, T>)
    ensures
        map@ == map_of(entries@),
{
    broadcast use vstd::std_specs::btree::group_btree_axioms;

    let mut map: BTreeMap<u16, T> = BTreeMap::new();
    let mut at: usize = 0;
    assert(entries@.take(0) =~= Seq::empty());
    while at < entries.len()
        invariant
            at <= entries@.len(),
            map@ == map_of(entries@.take(at as int)),
        decreases entries@.len() - at,
    {
        assert(entries@.take(at + 1).drop_last() =~= entries@.take(at as int));
        assert(entries@.take(at + 1).last() == entries@[at as int]);
        map.insert(entries[at].coordinate.key(), entries[at].value);
        at = at + 1;
    }
    assert(entries@.take(at as int) =~= entries@);
    map
}

/// The mathematical content of a [`RuleProfile`].
#[verifier::ext_equal]
pub struct ProfileContent {
    pub reference: RuleProfileRef,
    pub board_size: u8,
    pub start: Coordinate,
    pub premiums: Map<u16, PremiumSquare>,
    pub tiles: Seq<TileDefinition>,
    pub rack_size: u8,
    pub full_rack_bonus: u16,
    pub minimum_tiles_for_exchange: u8,
    pub scoreless_turn_limit: u8,
    pub dictionary_id: Seq<char>,
}

pub open spec fn profile_content(profile: RuleProfile) -> ProfileContent {
    ProfileContent {
        reference: profile.reference,
        board_size: profile.board_size,
        start: profile.start,
        premiums: profile.premiums@,
        tiles: profile.tiles@,
        rack_size: profile.rack_size,
        full_rack_bonus: profile.full_rack_bonus,
        minimum_tiles_for_exchange: profile.minimum_tiles_for_exchange,
        scoreless_turn_limit: profile.scoreless_turn_limit,
        dictionary_id: profile.dictionary_id@,
    }
}

/// The mathematical content of a [`GameEvent`].
#[verifier::ext_equal]
pub enum EventContent {
    GameStarted {
        metadata: GameMetadata,
        players: Seq<PlayerId>,
        first_player: PlayerId,
        rules: ProfileContent,
        racks: Map<PlayerId, Vec<Tile>>,
        bag: Seq<Tile>,
    },
    TilesPlayed {
        player_id: PlayerId,
        placements: Map<u16, BoardTile>,
        score: u32,
        drawn: Seq<Tile>,
    },
    TilesExchanged { player_id: PlayerId, returned: Seq<Tile>, drawn: Seq<Tile> },
    TurnPassed { player_id: PlayerId },
    GameResigned { player_id: PlayerId, winner: Option<PlayerId> },
    GameCompleted {
        scores: Map<PlayerId, u32>,
        winner: Option<PlayerId>,
        leaders: Set<PlayerId>,
        reason: CompletionReason,
    },
}

pub open spec fn event_content(event: GameEvent) -> EventContent {
    match event {
        GameEvent::GameStarted { metadata, players, first_player, rules, racks, bag } =>
            EventContent::GameStarted {
            metadata,
            players: players@,
            first_player,
            rules: profile_content(rules),
            racks: racks@,
            bag: bag@,
        },
        GameEvent::TilesPlayed { player_id, placements, score, drawn } =>
            EventContent::TilesPlayed {
            player_id,
            placements: placements@,
            score,
            drawn: drawn@,
        },
        GameEvent::TilesExchanged { player_id, returned, drawn } =>
            EventContent::TilesExchanged { player_id, returned: returned@, drawn: drawn@ },
        GameEvent::TurnPassed { player_id } => EventContent::TurnPassed { player_id },
        GameEvent::GameResigned { player_id, winner } => EventContent::GameResigned {
            player_id,
            winner,
        },
        GameEvent::GameCompleted { scores, winner, leaders, reason } =>
            EventContent::GameCompleted {
            scores: scores@,
            winner,
            leaders: leaders@,
            reason,
        },
    }
}

/// The mathematical content of a [`GameState`].
#[verifier::ext_equal]
pub struct StateContent {
    pub metadata: GameMetadata,
    pub rules: ProfileContent,
    pub players: Seq<PlayerId>,
    pub active_players: Set<PlayerId>,
    pub active_player: PlayerId,
    pub board: Map<u16, BoardTile>,
    pub racks: Map<PlayerId, Vec<Tile>>,
    pub bag: Seq<Tile>,
    pub scores: Map<PlayerId, u32>,
    pub scoreless_turns: u8,
    pub consecutive_passes: usize,
    pub winner: Option<PlayerId>,
    pub leaders: Set<PlayerId>,
    pub completion_reason: Option<CompletionReason>,
    pub status: GameStatus,
    pub revision: u64,
}

pub open spec fn state_content(state: GameState) -> StateContent {
    StateContent {
        metadata: state.metadata,
        rules: profile_content(state.rules),
        players: state.players@,
        active_players: state.active_players@,
        active_player: state.active_player,
        board: state.board@,
        racks: state.racks@,
        bag: state.bag@,
        scores: state.scores@,
        scoreless_turns: state.scoreless_turns,
        consecutive_passes: state.consecutive_passes,
        winner: state.winner,
        leaders: state.leaders@,
        completion_reason: state.completion_reason,
        status: state.status,
        revision: state.revision,
    }
}

/// Rules in format 3.
#[derive(Debug, Clone, PartialEq, Eq)]
pub struct RuleProfileV3 {
    pub reference: RuleProfileRef,
    pub board_size: u8,
    pub start: Coordinate,
    pub premiums: Vec<CoordinateEntry<PremiumSquare>>,
    pub tiles: Vec<TileDefinition>,
    pub rack_size: u8,
    pub full_rack_bonus: u16,
    pub minimum_tiles_for_exchange: u8,
    pub scoreless_turn_limit: u8,
    pub dictionary_id: String,
}

/// What rules in format 3 mean.
pub open spec fn profile_in_v3(profile: RuleProfileV3) -> ProfileContent {
    ProfileContent {
        reference: profile.reference,
        board_size: profile.board_size,
        start: profile.start,
        premiums: map_of(profile.premiums@),
        tiles: profile.tiles@,
        rack_size: profile.rack_size,
        full_rack_bonus: profile.full_rack_bonus,
        minimum_tiles_for_exchange: profile.minimum_tiles_for_exchange,
        scoreless_turn_limit: profile.scoreless_turn_limit,
        dictionary_id: profile.dictionary_id@,
    }
}

impl RuleProfileV3 {
    /// Writes rules in format 3, with the premiums listed by column and then by row.
    pub fn write(profile: RuleProfile) -> (written: RuleProfileV3)
        ensures
            profile_in_v3(written) == profile_content(profile),
            written.premiums@ == entries_of(profile.premiums@),
    {
        proof {
            entries_round_trip(profile.premiums@);
        }
        RuleProfileV3 {
            reference: profile.reference,
            board_size: profile.board_size,
            start: profile.start,
            premiums: coordinate_entries(&profile.premiums),
            tiles: profile.tiles,
            rack_size: profile.rack_size,
            full_rack_bonus: profile.full_rack_bonus,
            minimum_tiles_for_exchange: profile.minimum_tiles_for_exchange,
            scoreless_turn_limit: profile.scoreless_turn_limit,
            dictionary_id: profile.dictionary_id,
        }
    }

    /// Reads rules in format 3.
    pub fn read(self) -> (profile: RuleProfile)
        ensures
            profile_content(profile) == profile_in_v3(self),
    {
        RuleProfile {
            reference: self.reference,
            board_size: self.board_size,
            start: self.start,
            premiums: coordinate_map(&self.premiums),
            tiles: self.tiles,
            rack_size: self.rack_size,
            full_rack_bonus: self.full_rack_bonus,
            minimum_tiles_for_exchange: self.minimum_tiles_for_exchange,
            scoreless_turn_limit: self.scoreless_turn_limit,
            dictionary_id: self.dictionary_id,
        }
    }
}

/// An event in format 3.
#[derive(Debug, Clone, PartialEq, Eq)]
pub enum GameEventV3 {
    GameStarted {
        metadata: GameMetadata,
        players: Vec<PlayerId>,
        first_player: PlayerId,
        rules: RuleProfileV3,
        racks: BTreeMap<PlayerId, Vec<Tile>>,
        bag: Vec<Tile>,
    },
    TilesPlayed {
        player_id: PlayerId,
        placements: Vec<CoordinateEntry<BoardTile>>,
        score: u32,
        drawn: Vec<Tile>,
    },
    TilesExchanged { player_id: PlayerId, returned: Vec<Tile>, drawn: Vec<Tile> },
    TurnPassed { player_id: PlayerId },
    GameResigned { player_id: PlayerId, winner: Option<PlayerId> },
    GameCompleted {
        scores: BTreeMap<PlayerId, u32>,
        winner: Option<PlayerId>,
        leaders: BTreeSet<PlayerId>,
        reason: CompletionReason,
    },
}

/// What an event in format 3 means.
pub open spec fn event_in_v3(event: GameEventV3) -> EventContent {
    match event {
        GameEventV3::GameStarted { metadata, players, first_player, rules, racks, bag } =>
            EventContent::GameStarted {
            metadata,
            players: players@,
            first_player,
            rules: profile_in_v3(rules),
            racks: racks@,
            bag: bag@,
        },
        GameEventV3::TilesPlayed { player_id, placements, score, drawn } =>
            EventContent::TilesPlayed {
            player_id,
            placements: map_of(placements@),
            score,
            drawn: drawn@,
        },
        GameEventV3::TilesExchanged { player_id, returned, drawn } =>
            EventContent::TilesExchanged { player_id, returned: returned@, drawn: drawn@ },
        GameEventV3::TurnPassed { player_id } => EventContent::TurnPassed { player_id },
        GameEventV3::GameResigned { player_id, winner } => EventContent::GameResigned {
            player_id,
            winner,
        },
        GameEventV3::GameCompleted { scores, winner, leaders, reason } =>
            EventContent::GameCompleted {
            scores: scores@,
            winner,
            leaders: leaders@,
            reason,
        },
    }
}

impl GameEventV3 {
    /// Writes an event in format 3.
    pub fn write(event: GameEvent) -> (written: GameEventV3)
        ensures
            event_in_v3(written) == event_content(event),
            event matches GameEvent::TilesPlayed { placements, .. } ==> (written
                matches GameEventV3::TilesPlayed { placements: listed, .. } && listed@
                == entries_of(placements@)),
    {
        match event {
            GameEvent::GameStarted { metadata, players, first_player, rules, racks, bag } =>
                GameEventV3::GameStarted {
                metadata,
                players,
                first_player,
                rules: RuleProfileV3::write(rules),
                racks,
                bag,
            },
            GameEvent::TilesPlayed { player_id, placements, score, drawn } => {
                proof {
                    entries_round_trip(placements@);
                }
                GameEventV3::TilesPlayed {
                    player_id,
                    placements: coordinate_entries(&placements),
                    score,
                    drawn,
                }
            },
            GameEvent::TilesExchanged { player_id, returned, drawn } =>
                GameEventV3::TilesExchanged { player_id, returned, drawn },
            GameEvent::TurnPassed { player_id } => GameEventV3::TurnPassed { player_id },
            GameEvent::GameResigned { player_id, winner } => GameEventV3::GameResigned {
                player_id,
                winner,
            },
            GameEvent::GameCompleted { scores, winner, leaders, reason } =>
                GameEventV3::GameCompleted { scores, winner, leaders, reason },
        }
    }

    /// Reads an event in format 3.
    pub fn read(self) -> (event: GameEvent)
        ensures
            event_content(event) == event_in_v3(self),
    {
        match self {
            GameEventV3::GameStarted { metadata, players, first_player, rules, racks, bag } =>
                GameEvent::GameStarted {
                metadata,
                players,
                first_player,
                rules: rules.read(),
                racks,
                bag,
            },
            GameEventV3::TilesPlayed { player_id, placements, score, drawn } =>
                GameEvent::TilesPlayed {
                player_id,
                placements: coordinate_map(&placements),
                score,
                drawn,
            },
            GameEventV3::TilesExchanged { player_id, returned, drawn } =>
                GameEvent::TilesExchanged { player_id, returned, drawn },
            GameEventV3::TurnPassed { player_id } => GameEvent::TurnPassed { player_id },
            GameEventV3::GameResigned { player_id, winner } => GameEvent::GameResigned {
                player_id,
                winner,
            },
            GameEventV3::GameCompleted { scores, winner, leaders, reason } =>
                GameEvent::GameCompleted { scores, winner, leaders, reason },
        }
    }
}

/// An event in format 2.
#[derive(Debug, Clone, PartialEq, Eq)]
pub enum GameEventV2 {
    GameStarted {
        metadata: GameMetadata,
        players: [PlayerId; 2],
        first_player: PlayerId,
        racks: BTreeMap<PlayerId, Vec<Tile>>,
        bag: Vec<Tile>,
    },
    TilesPlayed {
        player_id: PlayerId,
        placements: Vec<CoordinateEntry<BoardTile>>,
        score: u32,
        drawn: Vec<Tile>,
    },
    TilesExchanged { player_id: PlayerId, returned: Vec<Tile>, drawn: Vec<Tile> },
    TurnPassed { player_id: PlayerId },
    GameResigned { player_id: PlayerId, winner: PlayerId },
    GameCompleted { scores: BTreeMap<PlayerId, u32>, winner: Option<PlayerId> },
}

/// The players with the highest score.
pub open spec fn highest_scorers(scores: Map<PlayerId, u32>) -> Set<PlayerId> {
    Set::new(
        |player: PlayerId|
            scores.contains_key(player) && forall|other: PlayerId| #[trigger]
                scores.contains_key(other) ==> scores[other] <= scores[player],
    )
}

/// Who leads a game that format 2 calls complete: its winner, or everyone with the highest score.
pub open spec fn leaders_in_v2(scores: Map<PlayerId, u32>, winner: Option<PlayerId>) -> Set<
    PlayerId,
> {
    match winner {
        Some(winner) => set![winner],
        None => highest_scorers(scores),
    }
}

/// What an event in format 2 means under the rules that format 2 knows.
pub open spec fn event_in_v2(event: GameEventV2, rules: ProfileContent) -> EventContent {
    match event {
        GameEventV2::GameStarted { metadata, players, first_player, racks, bag } =>
            EventContent::GameStarted {
            metadata,
            players: players@,
            first_player,
            rules,
            racks: racks@,
            bag: bag@,
        },
        GameEventV2::TilesPlayed { player_id, placements, score, drawn } =>
            EventContent::TilesPlayed {
            player_id,
            placements: map_of(placements@),
            score,
            drawn: drawn@,
        },
        GameEventV2::TilesExchanged { player_id, returned, drawn } =>
            EventContent::TilesExchanged { player_id, returned: returned@, drawn: drawn@ },
        GameEventV2::TurnPassed { player_id } => EventContent::TurnPassed { player_id },
        GameEventV2::GameResigned { player_id, winner } => EventContent::GameResigned {
            player_id,
            winner: Some(winner),
        },
        GameEventV2::GameCompleted { scores, winner } => EventContent::GameCompleted {
            scores: scores@,
            winner,
            leaders: leaders_in_v2(scores@, winner),
            reason: CompletionReason::Legacy,
        },
    }
}

/// Whether format 2 can hold an event.
pub open spec fn fits_v2(event: GameEvent) -> bool {
    match event {
        GameEvent::GameStarted { players, .. } => players@.len() == 2,
        GameEvent::GameResigned { winner, .. } => winner is Some,
        GameEvent::GameCompleted { reason, .. } => reason == CompletionReason::Legacy,
        _ => true,
    }
}

/// An event with what format 2 supplies when it is read: the rules that format 2 knows, and the
/// leaders that follow from the scores and the winner.
pub open spec fn as_in_v2(event: EventContent, rules: ProfileContent) -> EventContent {
    match event {
        EventContent::GameStarted { metadata, players, first_player, rules: _, racks, bag } =>
            EventContent::GameStarted { metadata, players, first_player, rules, racks, bag },
        EventContent::GameCompleted { scores, winner, leaders: _, reason } =>
            EventContent::GameCompleted {
            scores,
            winner,
            leaders: leaders_in_v2(scores, winner),
            reason,
        },
        other => other,
    }
}

/// The players with the highest score.
pub fn legacy_leaders(scores: &BTreeMap<PlayerId, u32>) -> (leaders: BTreeSet<PlayerId>)
    ensures
        leaders@ == highest_scorers(scores@),
{
    broadcast use vstd::std_specs::btree::group_btree_axioms;

    let keys = players_keys(scores);
    let mut leaders: BTreeSet<PlayerId> = BTreeSet::new();
    let mut highest: u32 = 0;
    let mut at: usize = 0;
    while at < keys.len()
        invariant
            at <= keys@.len(),
            order::lists_players(keys@, scores@.dom()),
            forall|i: int| 0 <= i < at ==> scores@[#[trigger] keys@[i]] <= highest,
            at > 0 ==> exists|i: int| 0 <= i < at && scores@[#[trigger] keys@[i]] == highest,
            forall|player: PlayerId| #[trigger]
                leaders@.contains(player) <==> exists|i: int|
                    0 <= i < at && #[trigger] keys@[i] == player && scores@[player] == highest,
        decreases keys@.len() - at,
    {
        let player: PlayerId = keys[at];
        assert(keys@[at as int] == player);
        assert(scores@.contains_key(player)) by {
            assert(keys@.contains(keys@[at as int]));
            assert(keys@.to_set().contains(player));
        }
        let score: u32 = match scores.get(&player) {
            Some(score) => *score,
            None => 0,
        };
        let ghost before = leaders@;
        let ghost top = highest;
        if at == 0 || score > highest {
            highest = score;
            leaders = BTreeSet::new();
            leaders.insert(player);
        } else if score == highest {
            leaders.insert(player);
        }
        assert forall|other: PlayerId| #[trigger]
            leaders@.contains(other) <==> exists|i: int|
                0 <= i < at + 1 && #[trigger] keys@[i] == other && scores@[other] == highest by {
            if exists|i: int|
                0 <= i < at + 1 && #[trigger] keys@[i] == other && scores@[other] == highest {
                let i = choose|i: int|
                    0 <= i < at + 1 && #[trigger] keys@[i] == other && scores@[other] == highest;
                if i < at {
                    assert(scores@[keys@[i]] <= top);
                    assert(keys@[i] == other && scores@[other] == top);
                    assert(before.contains(other));
                }
            }
            if leaders@.contains(other) {
                if other == player {
                    assert(keys@[at as int] == other);
                } else {
                    assert(before.contains(other));
                    let i = choose|i: int|
                        0 <= i < at && #[trigger] keys@[i] == other && scores@[other] == top;
                    assert(keys@[i] == other);
                }
            }
        }
        assert(scores@[keys@[at as int]] <= highest);
        at = at + 1;
    }
    assert forall|player: PlayerId| leaders@.contains(player) <==> highest_scorers(
        scores@,
    ).contains(player) by {
        if leaders@.contains(player) {
            let i = choose|i: int|
                0 <= i < at && #[trigger] keys@[i] == player && scores@[player] == highest;
            assert(keys@.contains(keys@[i]));
            assert(keys@.to_set().contains(player));
            assert forall|other: PlayerId| #[trigger] scores@.contains_key(other) implies scores@[
            other] <= scores@[player] by {
                assert(keys@.to_set().contains(other));
                let j = choose|j: int| 0 <= j < keys@.len() && #[trigger] keys@[j] == other;
                assert(scores@[keys@[j]] <= highest);
            }
        }
        if highest_scorers(scores@).contains(player) {
            assert(keys@.to_set().contains(player));
            let i = choose|i: int| 0 <= i < keys@.len() && #[trigger] keys@[i] == player;
            assert(scores@[keys@[i]] <= highest);
            let top = choose|top: int| 0 <= top < at && scores@[#[trigger] keys@[top]] == highest;
            assert(scores@.contains_key(keys@[top])) by {
                assert(keys@.contains(keys@[top]));
                assert(keys@.to_set().contains(keys@[top]));
            }
            assert(keys@[i] == player && scores@[player] == highest);
        }
    }
    assert(leaders@ =~= highest_scorers(scores@));
    leaders
}

impl GameEventV2 {
    /// Writes an event in format 2, where that format can hold it.
    pub fn write(event: GameEvent) -> (written: Option<GameEventV2>)
        ensures
            written is Some <==> fits_v2(event),
            written matches Some(written) ==> forall|rules: ProfileContent| #[trigger]
                event_in_v2(written, rules) == as_in_v2(event_content(event), rules),
    {
        match event {
            GameEvent::GameStarted { metadata, players, first_player, racks, bag, .. } => {
                if players.len() != 2 {
                    return None;
                }
                let seats: [PlayerId; 2] = [players[0], players[1]];
                assert(seats@ =~= players@);
                Some(
                    GameEventV2::GameStarted { metadata, players: seats, first_player, racks, bag },
                )
            },
            GameEvent::TilesPlayed { player_id, placements, score, drawn } => {
                proof {
                    entries_round_trip(placements@);
                }
                Some(
                    GameEventV2::TilesPlayed {
                        player_id,
                        placements: coordinate_entries(&placements),
                        score,
                        drawn,
                    },
                )
            },
            GameEvent::TilesExchanged { player_id, returned, drawn } => Some(
                GameEventV2::TilesExchanged { player_id, returned, drawn },
            ),
            GameEvent::TurnPassed { player_id } => Some(GameEventV2::TurnPassed { player_id }),
            GameEvent::GameResigned { player_id, winner } => match winner {
                Some(winner) => Some(GameEventV2::GameResigned { player_id, winner }),
                None => None,
            },
            GameEvent::GameCompleted { scores, winner, reason, .. } => match reason {
                CompletionReason::Legacy => Some(GameEventV2::GameCompleted { scores, winner }),
                _ => None,
            },
        }
    }

    /// Reads an event in format 2 under the rules that format 2 knows.
    pub fn read(self, rules: RuleProfile) -> (event: GameEvent)
        ensures
            event_content(event) == event_in_v2(self, profile_content(rules)),
    {
        broadcast use vstd::std_specs::btree::group_btree_axioms;

        match self {
            GameEventV2::GameStarted { metadata, players, first_player, racks, bag } => {
                let mut seats: Vec<PlayerId> = Vec::new();
                seats.push(players[0]);
                seats.push(players[1]);
                assert(seats@ =~= players@);
                GameEvent::GameStarted { metadata, players: seats, first_player, rules, racks, bag }
            },
            GameEventV2::TilesPlayed { player_id, placements, score, drawn } =>
                GameEvent::TilesPlayed {
                player_id,
                placements: coordinate_map(&placements),
                score,
                drawn,
            },
            GameEventV2::TilesExchanged { player_id, returned, drawn } =>
                GameEvent::TilesExchanged { player_id, returned, drawn },
            GameEventV2::TurnPassed { player_id } => GameEvent::TurnPassed { player_id },
            GameEventV2::GameResigned { player_id, winner } => GameEvent::GameResigned {
                player_id,
                winner: Some(winner),
            },
            GameEventV2::GameCompleted { scores, winner } => {
                let leaders: BTreeSet<PlayerId> = match winner {
                    Some(player) => {
                        let mut leaders: BTreeSet<PlayerId> = BTreeSet::new();
                        leaders.insert(player);
                        assert(leaders@ =~= set![player]);
                        leaders
                    },
                    None => legacy_leaders(&scores),
                };
                GameEvent::GameCompleted {
                    scores,
                    winner,
                    leaders,
                    reason: CompletionReason::Legacy,
                }
            },
        }
    }
}

/// A state in format 2.
#[derive(Debug, Clone, PartialEq, Eq)]
pub struct GameStateV2 {
    pub metadata: GameMetadata,
    pub players: [PlayerId; 2],
    pub active_player: PlayerId,
    pub board: Vec<CoordinateEntry<BoardTile>>,
    pub racks: BTreeMap<PlayerId, Vec<Tile>>,
    pub bag: Vec<Tile>,
    pub scores: BTreeMap<PlayerId, u32>,
    pub scoreless_turns: u8,
    pub winner: Option<PlayerId>,
    pub status: GameStatus,
    pub revision: u64,
}

/// What a state in format 2 means under the rules that format 2 knows.
pub open spec fn state_in_v2(state: GameStateV2, rules: ProfileContent) -> StateContent {
    StateContent {
        metadata: state.metadata,
        rules,
        players: state.players@,
        active_players: state.players@.to_set(),
        active_player: state.active_player,
        board: map_of(state.board@),
        racks: state.racks@,
        bag: state.bag@,
        scores: state.scores@,
        scoreless_turns: state.scoreless_turns,
        consecutive_passes: state.scoreless_turns as usize,
        winner: state.winner,
        leaders: match state.winner {
            Some(winner) => set![winner],
            None => Set::empty(),
        },
        completion_reason: if state.status == GameStatus::Completed {
            Some(CompletionReason::Legacy)
        } else {
            None
        },
        status: state.status,
        revision: state.revision,
    }
}

impl GameStateV2 {
    /// Reads a state in format 2 under the rules that format 2 knows.
    pub fn read(self, rules: RuleProfile) -> (state: GameState)
        ensures
            state_content(state) == state_in_v2(self, profile_content(rules)),
    {
        broadcast use vstd::std_specs::btree::group_btree_axioms;

        let mut players: Vec<PlayerId> = Vec::new();
        players.push(self.players[0]);
        players.push(self.players[1]);
        assert(players@ =~= self.players@);
        let mut active_players: BTreeSet<PlayerId> = BTreeSet::new();
        active_players.insert(self.players[0]);
        active_players.insert(self.players[1]);
        assert forall|player: PlayerId| active_players@.contains(player) <==> players@.to_set().contains(
            player,
        ) by {
            if active_players@.contains(player) {
                assert(players@[0] == player || players@[1] == player);
            }
        }
        assert(active_players@ =~= players@.to_set());
        let mut leaders: BTreeSet<PlayerId> = BTreeSet::new();
        if let Some(winner) = self.winner {
            leaders.insert(winner);
            assert(leaders@ =~= set![winner]);
        }
        let completion_reason: Option<CompletionReason> = match self.status {
            GameStatus::Completed => Some(CompletionReason::Legacy),
            GameStatus::Active => None,
        };
        GameState {
            metadata: self.metadata,
            rules,
            players,
            active_players,
            active_player: self.active_player,
            board: coordinate_map(&self.board),
            racks: self.racks,
            bag: self.bag,
            scores: self.scores,
            scoreless_turns: self.scoreless_turns,
            consecutive_passes: self.scoreless_turns as usize,
            winner: self.winner,
            leaders,
            completion_reason,
            status: self.status,
            revision: self.revision,
        }
    }
}

/// A state in format 3. A payload without rules stands for the rules that format 2 knows.
#[derive(Debug, Clone, PartialEq, Eq)]
pub struct GameStateV3 {
    pub metadata: GameMetadata,
    pub rules: RuleProfileV3,
    pub players: Vec<PlayerId>,
    pub active_players: BTreeSet<PlayerId>,
    pub active_player: PlayerId,
    pub board: Vec<CoordinateEntry<BoardTile>>,
    pub racks: BTreeMap<PlayerId, Vec<Tile>>,
    pub bag: Vec<Tile>,
    pub scores: BTreeMap<PlayerId, u32>,
    pub consecutive_passes: usize,
    pub winner: Option<PlayerId>,
    pub leaders: BTreeSet<PlayerId>,
    pub completion_reason: Option<CompletionReason>,
    pub status: GameStatus,
    pub revision: u64,
}

/// A count of passes as far as a byte holds it.
pub open spec fn byte_count(passes: usize) -> u8 {
    if passes > u8::MAX {
        u8::MAX
    } else {
        passes as u8
    }
}

/// What a state in format 3 means.
pub open spec fn state_in_v3(state: GameStateV3) -> StateContent {
    StateContent {
        metadata: state.metadata,
        rules: profile_in_v3(state.rules),
        players: state.players@,
        active_players: state.active_players@,
        active_player: state.active_player,
        board: map_of(state.board@),
        racks: state.racks@,
        bag: state.bag@,
        scores: state.scores@,
        scoreless_turns: byte_count(state.consecutive_passes),
        consecutive_passes: state.consecutive_passes,
        winner: state.winner,
        leaders: state.leaders@,
        completion_reason: state.completion_reason,
        status: state.status,
        revision: state.revision,
    }
}

impl GameStateV3 {
    /// Writes a state in format 3, which keeps everything but a count of scoreless turns that
    /// differs from the count of passes.
    pub fn write(state: GameState) -> (written: GameStateV3)
        ensures
            state_in_v3(written) == (StateContent {
                scoreless_turns: byte_count(state.consecutive_passes),
                ..state_content(state)
            }),
            written.board@ == entries_of(state.board@),
    {
        proof {
            entries_round_trip(state.board@);
        }
        GameStateV3 {
            metadata: state.metadata,
            rules: RuleProfileV3::write(state.rules),
            players: state.players,
            active_players: state.active_players,
            active_player: state.active_player,
            board: coordinate_entries(&state.board),
            racks: state.racks,
            bag: state.bag,
            scores: state.scores,
            consecutive_passes: state.consecutive_passes,
            winner: state.winner,
            leaders: state.leaders,
            completion_reason: state.completion_reason,
            status: state.status,
            revision: state.revision,
        }
    }

    /// Reads a state in format 3.
    pub fn read(self) -> (state: GameState)
        ensures
            state_content(state) == state_in_v3(self),
    {
        let scoreless_turns: u8 = if self.consecutive_passes > u8::MAX as usize {
            u8::MAX
        } else {
            self.consecutive_passes as u8
        };
        GameState {
            metadata: self.metadata,
            rules: self.rules.read(),
            players: self.players,
            active_players: self.active_players,
            active_player: self.active_player,
            board: coordinate_map(&self.board),
            racks: self.racks,
            bag: self.bag,
            scores: self.scores,
            scoreless_turns,
            consecutive_passes: self.consecutive_passes,
            winner: self.winner,
            leaders: self.leaders,
            completion_reason: self.completion_reason,
            status: self.status,
            revision: self.revision,
        }
    }
}

/// Reading what was written in format 3 gives every event back.
pub proof fn events_survive_format_three(
    event: GameEvent,
    written: GameEventV3,
    read: GameEvent,
)
    requires
        event_in_v3(written) == event_content(event),
        event_content(read) == event_in_v3(written),
    ensures
        event_content(read) == event_content(event),
{
}

/// Reading what was written in format 3 gives back every state whose count of scoreless turns is
/// its count of passes.
pub proof fn states_survive_format_three(
    state: GameState,
    written: GameStateV3,
    read: GameState,
)
    requires
        state.scoreless_turns == byte_count(state.consecutive_passes),
        state_in_v3(written) == (StateContent {
            scoreless_turns: byte_count(state.consecutive_passes),
            ..state_content(state)
        }),
        state_content(read) == state_in_v3(written),
    ensures
        state_content(read) == state_content(state),
{
}

} // verus!
