//! What the page of a game shows: the board, the viewer's own rack, the scores, and how it went.
use crate::components::{self, PendingPlacement, PremiumView, RackTile, SeenGame};
use crate::game::{
    Coordinate, GameEvent, GameState, GameStatus, PlayerId, PremiumSquare, ReplayError,
    RuleProfile, TileFace, Timestamp,
};
use crate::game_service::{self, GameServiceError};
use crate::ids;
use crate::journal::{self, EventRecord, JournalError};
use crate::move_history::{self, HistoryRow, MoveHistoryError, NamesView};
use crate::order;
use crate::presentation::{self, PageView, PersonView, PresentationError};
use crate::rack_preferences::{self, RackPreferenceError};
use crate::script::{Outcome, Reply, Trace};
use crate::text;
use vstd::prelude::*;

verus! {

/// Whether a board shows a tile on a square.
pub open spec fn shows_tile(
    board: Seq<(Coordinate, char, u8)>,
    key: u16,
    letter: char,
    points: u8,
) -> bool {
    exists|i: int|
        0 <= i < board.len() && (#[trigger] board[i]).0.spec_key() == key && board[i].1 == letter
            && board[i].2 == points
}

/// What a premium square is called: it doubles or triples a letter or a word.
pub open spec fn premium_named(premium: PremiumSquare, shown: PremiumView) -> bool {
    match (premium, shown) {
        (PremiumSquare::Letter(factor), PremiumView::DoubleLetter) => factor == 2,
        (PremiumSquare::Letter(factor), PremiumView::TripleLetter) => factor != 2,
        (PremiumSquare::Word(factor), PremiumView::DoubleWord) => factor == 2,
        (PremiumSquare::Word(factor), PremiumView::TripleWord) => factor != 2,
        _ => false,
    }
}

/// Whether a rack shows a tile: a blank as a space.
pub open spec fn shows_rack_tile(shown: RackTile, tile: crate::game::Tile) -> bool {
    &&& shown.0 == tile.id
    &&& shown.2 == tile.points
    &&& match tile.face {
        TileFace::Letter(letter) => shown.1 == letter,
        TileFace::Blank => shown.1 == ' ',
    }
}

/// Whether a view shows a game as its viewer may see it.
pub open spec fn shows_game(
    seen: SeenGame,
    state: GameState,
    viewer: PlayerId,
    profile: RuleProfile,
) -> bool {
    &&& seen.board.len() == state.board@.dom().len()
    &&& forall|key: u16| #[trigger]
        state.board@.contains_key(key) ==> shows_tile(
            seen.board,
            key,
            state.board@[key].letter,
            state.board@[key].tile.points,
        )
    &&& seen.premiums.len() == profile.premiums@.dom().len()
    &&& forall|key: u16| #[trigger]
        profile.premiums@.contains_key(key) ==> exists|i: int|
            0 <= i < seen.premiums.len() && (#[trigger] seen.premiums[i]).0.spec_key() == key
                && premium_named(profile.premiums@[key], seen.premiums[i].1)
    &&& seen.rack.len() == state.racks@[viewer]@.len()
    &&& forall|i: int|
        0 <= i < seen.rack.len() ==> shows_rack_tile(
            #[trigger] seen.rack[i],
            state.racks@[viewer]@[i],
        )
    &&& seen.scores.len() == state.scores@.dom().len()
    &&& forall|player: PlayerId| #[trigger]
        state.scores@.contains_key(player) ==> exists|i: int|
            0 <= i < seen.scores.len() && #[trigger] seen.scores[i] == (
                player,
                state.scores@[player],
            )
    &&& seen.board_size == profile.board_size
    &&& seen.start == profile.start
    &&& seen.active_player == state.active_player
    &&& seen.status == state.status
    &&& seen.winner == state.winner
    &&& seen.revision == state.revision
}

proof fn square_is_listed(keys: Set<u16>, key: u16) -> (i: int)
    requires
        keys.finite(),
        keys.contains(key),
    ensures
        0 <= i < order::ascending_squares(keys).len(),
        order::ascending_squares(keys)[i] == key,
        order::ascending_squares(keys).len() == keys.len(),
{
    order::ascending_squares_are_listed(keys);
    let listed = order::ascending_squares(keys);
    assert(listed.to_set().contains(key));
    listed.unique_seq_to_set();
    choose|i: int| 0 <= i < listed.len() && listed[i] == key
}

proof fn squares_are_counted(keys: Set<u16>)
    requires
        keys.finite(),
    ensures
        order::ascending_squares(keys).len() == keys.len(),
{
    order::ascending_squares_are_listed(keys);
    order::ascending_squares(keys).unique_seq_to_set();
}

proof fn player_is_listed(keys: Set<PlayerId>, key: PlayerId) -> (i: int)
    requires
        keys.finite(),
        keys.contains(key),
    ensures
        0 <= i < order::ascending_players(keys).len(),
        order::ascending_players(keys)[i] == key,
{
    order::ascending_players_are_listed(keys);
    let listed = order::ascending_players(keys);
    assert(listed.to_set().contains(key));
    choose|i: int| 0 <= i < listed.len() && listed[i] == key
}

/// A view shows every committed tile where it lies, every premium for what it is, the viewer's own
/// rack in its order, everybody's score, and where the game stands.
pub proof fn views_show_the_game(state: GameState, viewer: PlayerId, profile: RuleProfile)
    requires
        state.board@.dom().finite(),
        profile.premiums@.dom().finite(),
        state.scores@.dom().finite(),
    ensures
        shows_game(components::seen_game(state, viewer, profile), state, viewer, profile),
{
    let seen = components::seen_game(state, viewer, profile);
    let board = state.board@;
    let premiums = profile.premiums@;
    let scores = state.scores@;
    squares_are_counted(board.dom());
    squares_are_counted(premiums.dom());
    order::ascending_players_are_listed(scores.dom());
    order::ascending_players(scores.dom()).unique_seq_to_set();
    assert forall|key: u16| #[trigger] board.contains_key(key) implies shows_tile(
        seen.board,
        key,
        board[key].letter,
        board[key].tile.points,
    ) by {
        let i = square_is_listed(board.dom(), key);
        keys_are_kept(key);
        assert(seen.board[i].0.spec_key() == key);
    }
    assert forall|key: u16| #[trigger] premiums.contains_key(key) implies exists|i: int|
        0 <= i < seen.premiums.len() && (#[trigger] seen.premiums[i]).0.spec_key() == key
            && premium_named(premiums[key], seen.premiums[i].1) by {
        let i = square_is_listed(premiums.dom(), key);
        keys_are_kept(key);
        assert(seen.premiums[i].0.spec_key() == key);
    }
    assert forall|player: PlayerId| #[trigger] scores.contains_key(player) implies exists|i: int|
        0 <= i < seen.scores.len() && #[trigger] seen.scores[i] == (player, scores[player]) by {
        let i = player_is_listed(scores.dom(), player);
        assert(seen.scores[i] == (player, scores[player]));
    }
}

proof fn keys_are_kept(key: u16)
    ensures
        Coordinate::spec_from_key(key).spec_key() == key,
{
}

/// Whether an event is a player's action.
pub open spec fn is_action(event: GameEvent) -> bool {
    event is TilesPlayed || event is TilesExchanged || event is TurnPassed || event is GameResigned
}

/// Whether a sentence and squares tell an action.
pub open spec fn tells_action(
    told: (Seq<char>, Set<u16>),
    event: GameEvent,
    names: NamesView,
) -> bool {
    match event {
        GameEvent::TilesPlayed { player_id, placements, score, .. } => told.0 == names.name(
            player_id,
        ) + " played for "@ + text::decimal(score as nat) + " points."@ && (forall|key: u16|
            told.1.contains(key) <==> #[trigger] placements@.contains_key(key)),
        GameEvent::TilesExchanged { player_id, returned, .. } => told.0 == names.name(player_id)
            + " exchanged "@ + text::decimal(returned@.len()) + " tile(s)."@ && (forall|key: u16|
            !#[trigger] told.1.contains(key)),
        GameEvent::TurnPassed { player_id } => told.0 == names.name(player_id) + " passed."@ && (
        forall|key: u16| !#[trigger] told.1.contains(key)),
        GameEvent::GameResigned { player_id, .. } => told.0 == names.name(player_id)
            + " resigned."@ && (forall|key: u16| !#[trigger] told.1.contains(key)),
        _ => false,
    }
}

/// The latest action that a page tells is the last one among the events, with the squares that it
/// played.
pub proof fn latest_actions_are_the_last(events: Seq<&GameEvent>, names: NamesView)
    ensures
        (forall|i: int| 0 <= i < events.len() ==> !is_action(*(#[trigger] events[i])))
            ==> presentation::latest_action_of(events, names) is None,
        forall|last: int|
            0 <= last < events.len() && is_action(*(#[trigger] events[last])) && (forall|i: int|
                last < i < events.len() ==> !is_action(*(#[trigger] events[i]))) ==> (
            presentation::latest_action_of(events, names) matches Some(told) && tells_action(
                told,
                *events[last],
                names,
            )),
    decreases events.len(),
{
    if events.len() > 0 {
        let end = events.len() - 1;
        let less = events.drop_last();
        latest_actions_are_the_last(less, names);
        if forall|i: int| 0 <= i < events.len() ==> !is_action(*(#[trigger] events[i])) {
            assert(!is_action(*events[end]));
            assert forall|i: int| 0 <= i < less.len() implies !is_action(*(
            #[trigger] less[i])) by {
                assert(less[i] == events[i]);
            }
        }
        assert forall|last: int|
            0 <= last < events.len() && is_action(*(#[trigger] events[last])) && (forall|i: int|
                last < i < events.len() ==> !is_action(*(#[trigger] events[i]))) implies (
        presentation::latest_action_of(events, names) matches Some(told) && tells_action(
            told,
            *events[last],
            names,
        )) by {
            if last < end {
                assert(!is_action(*events[end]));
                assert(less[last] == events[last]);
                assert forall|i: int| last < i < less.len() implies !is_action(*(
                #[trigger] less[i])) by {
                    assert(less[i] == events[i]);
                }
            }
        }
    }
}

/// The squares that a page marks as a player's are those on which the player has put tiles.
pub proof fn marked_squares_were_played(events: Seq<&GameEvent>, player: PlayerId, key: u16)
    ensures
        presentation::played_squares(events, player).contains(key) <==> exists|i: int|
            0 <= i < events.len() && (*(#[trigger] events[i]) matches GameEvent::TilesPlayed {
                player_id,
                placements,
                ..
            } && player_id == player && placements@.contains_key(key)),
{
    if presentation::played_squares(events, player).contains(key) {
        let i = choose|i: int|
            0 <= i < events.len() && presentation::plays_square(
                *(#[trigger] events[i]),
                player,
                key,
            );
        assert(*events[i] matches GameEvent::TilesPlayed { player_id, placements, .. } && player_id
            == player && placements@.contains_key(key));
    }
    if exists|i: int|
        0 <= i < events.len() && (*(#[trigger] events[i]) matches GameEvent::TilesPlayed {
            player_id,
            placements,
            ..
        } && player_id == player && placements@.contains_key(key)) {
        let i = choose|i: int|
            0 <= i < events.len() && (*(#[trigger] events[i]) matches GameEvent::TilesPlayed {
                player_id,
                placements,
                ..
            } && player_id == player && placements@.contains_key(key));
        assert(presentation::plays_square(*events[i], player, key));
    }
}

proof fn passes_are_counted(events: Seq<&GameEvent>, count: int)
    requires
        0 <= count,
    ensures
        presentation::trailing_passes(events) >= count <==> count <= events.len() && forall|i: int|
            events.len() - count <= i < events.len() ==> *(#[trigger] events[i]) is TurnPassed,
    decreases events.len(),
{
    if events.len() > 0 && count > 0 {
        let less = events.drop_last();
        passes_are_counted(less, count - 1);
        assert(events.last() == events[events.len() - 1]);
        if presentation::trailing_passes(events) >= count {
            assert forall|i: int| events.len() - count <= i < events.len() implies *(
            #[trigger] events[i]) is TurnPassed by {
                if i < less.len() {
                    assert(less[i] == events[i]);
                }
            }
        }
        if count <= events.len() && forall|i: int|
            events.len() - count <= i < events.len() ==> *(#[trigger] events[i]) is TurnPassed {
            assert(*events[events.len() - 1] is TurnPassed);
            assert forall|i: int| less.len() - (count - 1) <= i < less.len() implies *(
            #[trigger] less[i]) is TurnPassed by {
                assert(less[i] == events[i]);
            }
        }
    }
}

proof fn completion_is_found(events: Seq<&GameEvent>, end: int)
    requires
        0 <= end < events.len(),
        *events[end] is GameCompleted,
        forall|i: int| end < i < events.len() ==> !(*(#[trigger] events[i]) is GameCompleted),
    ensures
        presentation::completion_end(events) == end + 1,
    decreases events.len(),
{
    if end < events.len() - 1 {
        assert(!(*events[events.len() - 1] is GameCompleted));
        assert(events.last() == events[events.len() - 1]);
        let less = events.drop_last();
        assert forall|i: int| end < i < less.len() implies !(*(
        #[trigger] less[i]) is GameCompleted) by {
            assert(less[i] == events[i]);
        }
        completion_is_found(less, end);
    }
}

proof fn no_completion_is_found(events: Seq<&GameEvent>)
    requires
        forall|i: int| 0 <= i < events.len() ==> !(*(#[trigger] events[i]) is GameCompleted),
    ensures
        presentation::completion_end(events) == 0,
    decreases events.len(),
{
    if events.len() > 0 {
        assert(!(*events[events.len() - 1] is GameCompleted));
        assert(events.last() == events[events.len() - 1]);
        let less = events.drop_last();
        assert forall|i: int| 0 <= i < less.len() implies !(*(
        #[trigger] less[i]) is GameCompleted) by {
            assert(less[i] == events[i]);
        }
        no_completion_is_found(less);
    }
}

/// A game in which somebody resigned ended by resignation. Any other that is completed ended at the
/// pass limit where that many passes stand right before its end, and with an empty rack where they
/// do not. A game that goes on has no reason to have ended.
pub proof fn games_end_for_a_reason(events: Seq<&GameEvent>, pass_limit: u8)
    ensures
        (exists|i: int| 0 <= i < events.len() && *(#[trigger] events[i]) is GameResigned)
            ==> presentation::reason_of(events, pass_limit) == Some("Resignation"@),
        (forall|i: int|
            0 <= i < events.len() ==> !(*(#[trigger] events[i]) is GameResigned) && !(
            *events[i] is GameCompleted)) ==> presentation::reason_of(events, pass_limit) is None,
        forall|end: int|
            0 <= end < events.len() && *(#[trigger] events[end]) is GameCompleted && (forall|
                i: int,
            |
                0 <= i < events.len() ==> !(*(#[trigger] events[i]) is GameResigned)) && (forall|
                i: int,
            |
                end < i < events.len() ==> !(*(#[trigger] events[i]) is GameCompleted))
                ==> presentation::reason_of(events, pass_limit) == Some(
                if pass_limit <= end && (forall|i: int|
                    end - pass_limit <= i < end ==> *(#[trigger] events[i]) is TurnPassed) {
                    "Consecutive-pass limit"@
                } else {
                    "A player emptied their rack"@
                },
            ),
{
    if exists|i: int| 0 <= i < events.len() && *(#[trigger] events[i]) is GameResigned {
        let i = choose|i: int| 0 <= i < events.len() && *(#[trigger] events[i]) is GameResigned;
        assert(presentation::is_resignation(*events[i]));
    }
    if forall|i: int|
        0 <= i < events.len() ==> !(*(#[trigger] events[i]) is GameResigned) && !(
        *events[i] is GameCompleted) {
        assert forall|i: int| 0 <= i < events.len() implies !presentation::is_resignation(
            *(#[trigger] events[i]),
        ) by {
            assert(!(*events[i] is GameResigned));
        }
        no_completion_is_found(events);
    }
    assert forall|end: int|
        0 <= end < events.len() && *(#[trigger] events[end]) is GameCompleted && (forall|i: int|
            0 <= i < events.len() ==> !(*(#[trigger] events[i]) is GameResigned)) && (forall|
            i: int,
        |
            end < i < events.len() ==> !(*(
            #[trigger] events[i]) is GameCompleted)) implies presentation::reason_of(
        events,
        pass_limit,
    ) == Some(
        if pass_limit <= end && (forall|i: int|
            end - pass_limit <= i < end ==> *(#[trigger] events[i]) is TurnPassed) {
            "Consecutive-pass limit"@
        } else {
            "A player emptied their rack"@
        },
    ) by {
        assert forall|i: int| 0 <= i < events.len() implies !presentation::is_resignation(
            *(#[trigger] events[i]),
        ) by {
            assert(!(*events[i] is GameResigned));
        }
        completion_is_found(events, end);
        let before = events.take(end);
        passes_are_counted(before, pass_limit as int);
        if pass_limit <= end {
            if forall|i: int|
                end - pass_limit <= i < end ==> *(#[trigger] events[i]) is TurnPassed {
                assert forall|i: int| before.len() - pass_limit <= i < before.len() implies *(
                #[trigger] before[i]) is TurnPassed by {
                    assert(before[i] == events[i]);
                }
            } else {
                let i = choose|i: int|
                    end - pass_limit <= i < end && !(*(#[trigger] events[i]) is TurnPassed);
                assert(before[i] == events[i]);
            }
        }
    }
}

/// A square that carries a tile shows its letter and points; one that does not shows no points, and
/// is marked as the start or by what its premium does.
pub proof fn squares_show_what_lies_on_them(view: SeenGame, square: Coordinate)
    ensures
        forall|i: int|
            0 <= i < view.board.len() && (#[trigger] view.board[i]).0 == square && (forall|j: int|
                i < j < view.board.len() ==> (#[trigger] view.board[j]).0 != square)
                ==> components::cell_of(view, square).label == seq![view.board[i].1]
                && components::cell_of(view, square).points == Some(view.board[i].2),
        (forall|i: int| 0 <= i < view.board.len() ==> (#[trigger] view.board[i]).0 != square) ==> {
            let cell = components::cell_of(view, square);
            &&& cell.points is None
            &&& square == view.start ==> cell.label == "★"@
            &&& square != view.start && (forall|i: int|
                0 <= i < view.premiums.len() ==> (#[trigger] view.premiums[i]).0 != square)
                ==> cell.label.len() == 0
            &&& forall|i: int|
                square != view.start && 0 <= i < view.premiums.len() && (
                #[trigger] view.premiums[i]).0 == square && (forall|j: int|
                    i < j < view.premiums.len() ==> (#[trigger] view.premiums[j]).0 != square)
                    ==> cell.label == match view.premiums[i].1 {
                    PremiumView::DoubleLetter => "DL"@,
                    PremiumView::TripleLetter => "TL"@,
                    PremiumView::DoubleWord => "DW"@,
                    PremiumView::TripleWord => "TW"@,
                }
        },
{
    assert forall|i: int|
        0 <= i < view.board.len() && (#[trigger] view.board[i]).0 == square && (forall|j: int|
            i < j < view.board.len() ==> (#[trigger] view.board[j]).0
                != square) implies components::tile_on(view.board, square) == Some(
        (view.board[i].1, view.board[i].2),
    ) by {
        last_tile_shows(view.board, square, i);
    }
    if forall|i: int| 0 <= i < view.board.len() ==> (#[trigger] view.board[i]).0 != square {
        no_tile_shows(view.board, square);
        if forall|i: int|
            0 <= i < view.premiums.len() ==> (#[trigger] view.premiums[i]).0 != square {
            no_premium_shows(view.premiums, square);
        }
        assert forall|i: int|
            0 <= i < view.premiums.len() && (#[trigger] view.premiums[i]).0 == square && (forall|
                j: int,
            |
                i < j < view.premiums.len() ==> (#[trigger] view.premiums[j]).0
                    != square) implies components::premium_on(view.premiums, square) == Some(
            view.premiums[i].1,
        ) by {
            last_premium_shows(view.premiums, square, i);
        }
    }
}

proof fn last_tile_shows(board: Seq<(Coordinate, char, u8)>, square: Coordinate, i: int)
    requires
        0 <= i < board.len(),
        board[i].0 == square,
        forall|j: int| i < j < board.len() ==> (#[trigger] board[j]).0 != square,
    ensures
        components::tile_on(board, square) == Some((board[i].1, board[i].2)),
    decreases board.len(),
{
    if i < board.len() - 1 {
        assert(board[board.len() - 1].0 != square);
        let less = board.drop_last();
        assert forall|j: int| i < j < less.len() implies (#[trigger] less[j]).0 != square by {
            assert(less[j] == board[j]);
        }
        last_tile_shows(less, square, i);
    }
}

proof fn no_tile_shows(board: Seq<(Coordinate, char, u8)>, square: Coordinate)
    requires
        forall|j: int| 0 <= j < board.len() ==> (#[trigger] board[j]).0 != square,
    ensures
        components::tile_on(board, square) is None,
    decreases board.len(),
{
    if board.len() > 0 {
        assert(board[board.len() - 1].0 != square);
        let less = board.drop_last();
        assert forall|j: int| 0 <= j < less.len() implies (#[trigger] less[j]).0 != square by {
            assert(less[j] == board[j]);
        }
        no_tile_shows(less, square);
    }
}

proof fn last_premium_shows(
    premiums: Seq<(Coordinate, PremiumView)>,
    square: Coordinate,
    i: int,
)
    requires
        0 <= i < premiums.len(),
        premiums[i].0 == square,
        forall|j: int| i < j < premiums.len() ==> (#[trigger] premiums[j]).0 != square,
    ensures
        components::premium_on(premiums, square) == Some(premiums[i].1),
    decreases premiums.len(),
{
    if i < premiums.len() - 1 {
        assert(premiums[premiums.len() - 1].0 != square);
        let less = premiums.drop_last();
        assert forall|j: int| i < j < less.len() implies (#[trigger] less[j]).0 != square by {
            assert(less[j] == premiums[j]);
        }
        last_premium_shows(less, square, i);
    }
}

proof fn no_premium_shows(premiums: Seq<(Coordinate, PremiumView)>, square: Coordinate)
    requires
        forall|j: int| 0 <= j < premiums.len() ==> (#[trigger] premiums[j]).0 != square,
    ensures
        components::premium_on(premiums, square) is None,
    decreases premiums.len(),
{
    if premiums.len() > 0 {
        assert(premiums[premiums.len() - 1].0 != square);
        let less = premiums.drop_last();
        assert forall|j: int| 0 <= j < less.len() implies (#[trigger] less[j]).0 != square by {
            assert(less[j] == premiums[j]);
        }
        no_premium_shows(less, square);
    }
}

/// The score that is shown as the viewer's is the one listed for the viewer, and the other is the
/// first that is listed for anybody else.
pub proof fn scores_are_told_apart(scores: Seq<(PlayerId, u32)>, viewer: PlayerId, i: int)
    requires
        0 <= i < scores.len(),
    ensures
        scores[i].0 == viewer && (forall|j: int|
            0 <= j < i ==> (#[trigger] scores[j]).0 != viewer) ==> components::first_score(
            scores,
            viewer,
            true,
        ) == scores[i].1,
        scores[i].0 != viewer && (forall|j: int|
            0 <= j < i ==> (#[trigger] scores[j]).0 == viewer) ==> components::first_score(
            scores,
            viewer,
            false,
        ) == scores[i].1,
    decreases scores.len(),
{
    if i > 0 {
        let rest = scores.skip(1);
        assert(rest[i - 1] == scores[i]);
        scores_are_told_apart(rest, viewer, i - 1);
        if forall|j: int| 0 <= j < i ==> (#[trigger] scores[j]).0 != viewer {
            assert(scores[0].0 != viewer);
            assert forall|j: int| 0 <= j < i - 1 implies (#[trigger] rest[j]).0 != viewer by {
                assert(rest[j] == scores[j + 1]);
            }
        }
        if forall|j: int| 0 <= j < i ==> (#[trigger] scores[j]).0 == viewer {
            assert(scores[0].0 == viewer);
            assert forall|j: int| 0 <= j < i - 1 implies (#[trigger] rest[j]).0 == viewer by {
                assert(rest[j] == scores[j + 1]);
            }
        }
    }
}

/// It is the viewer's turn exactly in a game that goes on and waits for the viewer.
pub proof fn turns_are_told(view: SeenGame, viewer: PlayerId)
    ensures
        components::turn_text_of(view, viewer) == "Your turn"@ <==> view.status
            == GameStatus::Active && view.active_player == viewer,
        components::turn_text_of(view, viewer) == "Waiting for opponent"@ <==> view.status
            == GameStatus::Active && view.active_player != viewer,
        components::turn_text_of(view, viewer) == "Game complete"@ <==> view.status
            == GameStatus::Completed,
{
    reveal_strlit("Your turn");
    reveal_strlit("Waiting for opponent");
    reveal_strlit("Game complete");
    assert("Your turn"@.len() == 9);
    assert("Waiting for opponent"@.len() == 20);
    assert("Game complete"@.len() == 13);
}

/// Placing a tile puts it on the square with the letter that was chosen and leaves every other tile
/// where it lies; nothing else is placed.
pub proof fn placing_puts_the_tile(
    placements: Seq<PendingPlacement>,
    tile: u16,
    square: Coordinate,
    blank_letter: Option<char>,
)
    ensures
        ({
            let placed = components::with_placement(placements, tile, square, blank_letter);
            &&& exists|i: int|
                0 <= i < placed.len() && #[trigger] placed[i] == (tile, square, blank_letter)
            &&& forall|i: int|
                0 <= i < placements.len() && (#[trigger] placements[i]).0 != tile ==> placed[i]
                    == placements[i]
            &&& placements.len() <= placed.len() <= placements.len() + 1
            &&& (exists|i: int| 0 <= i < placements.len() && (#[trigger] placements[i]).0 == tile)
                ==> placed.len() == placements.len()
        }),
{
    first_placement(placements, tile);
    let placed = components::with_placement(placements, tile, square, blank_letter);
    let place = components::place_of(placements, tile);
    if place < placements.len() {
        assert(placed[place] == (tile, square, blank_letter));
    } else {
        assert(placed[placements.len() as int] == (tile, square, blank_letter));
    }
}

proof fn first_placement(placements: Seq<PendingPlacement>, tile: u16)
    ensures
        0 <= components::place_of(placements, tile) <= placements.len(),
        components::place_of(placements, tile) < placements.len() ==> placements[
            components::place_of(placements, tile)
        ].0 == tile,
        forall|i: int|
            0 <= i < components::place_of(placements, tile) ==> (#[trigger] placements[i]).0
                != tile,
    decreases placements.len(),
{
    if placements.len() > 0 && placements[0].0 != tile {
        let rest = placements.skip(1);
        first_placement(rest, tile);
        assert forall|i: int| 0 <= i < components::place_of(placements, tile) implies (
        #[trigger] placements[i]).0 != tile by {
            if i > 0 {
                assert(rest[i - 1] == placements[i]);
            }
        }
    }
}

/// Taking a tile back leaves no placement of it and every placement of the others.
pub proof fn unplacing_takes_the_tile(placements: Seq<PendingPlacement>, tile: u16, other: int)
    ensures
        forall|i: int|
            0 <= i < components::without_tile(placements, tile).len() ==> (
            #[trigger] components::without_tile(placements, tile)[i]).0 != tile,
        0 <= other < placements.len() && placements[other].0 != tile
            ==> components::without_tile(placements, tile).contains(placements[other]),
    decreases placements.len(),
{
    if placements.len() > 0 {
        let less = placements.drop_last();
        unplacing_takes_the_tile(less, tile, other);
        let kept = components::without_tile(less, tile);
        let all = components::without_tile(placements, tile);
        if 0 <= other < placements.len() && placements[other].0 != tile {
            if other < less.len() {
                assert(less[other] == placements[other]);
                let i = choose|i: int| 0 <= i < kept.len() && kept[i] == less[other];
                assert(all[i] == placements[other]);
            } else {
                assert(all[all.len() - 1] == placements[other]);
            }
        }
    }
}

/// A blank's letter is chosen in upper case: letters keep their place in the alphabet.
pub proof fn blank_letters_are_upper_case(letter: char)
    requires
        components::is_ascii_letter(letter),
    ensures
        'A' <= components::upper_letter(letter) <= 'Z',
        'A' <= letter <= 'Z' ==> components::upper_letter(letter) == letter,
        'a' <= letter <= 'z' ==> components::upper_letter(letter) as int - 'A' as int
            == letter as int - 'a' as int,
{
}

/// What a page of a game is made of: where each part was loaded, and the records and the state that
/// they gave.
pub struct PageParts {
    pub session: Trace,
    pub seat: Trace,
    pub recovery: Trace,
    pub rules: Trace,
    pub journal: Trace,
    pub people: Trace,
    pub history: Trace,
    pub adjustments: Trace,
    pub rack: Trace,
    pub records: Seq<EventRecord>,
}

/// Whether a page's viewer, seat, state and rules are those of the session's user in the game that
/// was asked for.
pub open spec fn page_belongs(
    page: PageView,
    session: Option<Seq<char>>,
    game: Seq<char>,
    now: Timestamp,
    parts: PageParts,
) -> bool {
    &&& presentation::authenticated_user_run(parts.session, session, now).outcome == Outcome::<
        Seq<char>,
        PresentationError,
    >::Done(page.user_id)
    &&& ids::parsed_id(game) == Some(page.game_id)
    &&& game_service::player_for_user_run(parts.seat, page.game_id, page.user_id).outcome
        == Outcome::<PlayerId, GameServiceError>::Done(page.viewer_player)
    &&& journal::recover_game_run(parts.recovery, page.game_id).outcome == Outcome::<
        GameState,
        JournalError,
    >::Done(page.state)
    &&& !parts.rules.spent()
    &&& parts.rules.reply() == Reply::Rules(page.rules)
    &&& page.state.players@.contains(page.viewer_player)
    &&& page.view == components::seen_game(page.state, page.viewer_player, page.rules)
}

/// Whether a page tells its game's events: each of its parts tells all of them, by the display
/// names of the viewer and the opponent.
pub open spec fn page_tells(page: PageView, parts: PageParts) -> bool {
    let events = journal::event_refs(parts.records);
    &&& journal::load_events_run(parts.journal, page.game_id, 0).outcome == Outcome::<
        Seq<EventRecord>,
        JournalError,
    >::Done(parts.records)
    &&& presentation::people_run(parts.people, page.game_id, page.user_id).outcome == Outcome::<
        (PersonView, PersonView),
        PresentationError,
    >::Done((page.viewer, page.opponent))
    &&& exists|names: NamesView|
        names.name(page.viewer_player) == page.viewer.display_name && (forall|player: PlayerId|
            player != page.viewer_player ==> #[trigger] names.name(player)
                == page.opponent.display_name) && #[trigger] move_history::move_history_run(
            parts.history,
            events,
            page.rules,
            names,
        ).outcome == Outcome::<Seq<HistoryRow>, MoveHistoryError>::Done(page.history) && (
        match presentation::latest_action_of(events, names) {
            Some(told) => page.latest_action == Some(told.0) && page.latest_play_coordinates
                == told.1,
            None => page.latest_action is None && page.latest_play_coordinates.is_empty(),
        })
    &&& move_history::adjustments_run(parts.adjustments, None, events, 0).outcome == Outcome::<
        Map<PlayerId, i64>,
        ReplayError,
    >::Done(page.final_score_adjustments)
    &&& page.viewer_play_coordinates == presentation::played_squares(events, page.viewer_player)
    &&& page.completion_reason == presentation::reason_of(
        events,
        page.rules.scoreless_turn_limit,
    )
    &&& rack_preferences::load_rack_order_run(parts.rack, page.game_id, page.user_id).outcome
        == Outcome::<Seq<u16>, RackPreferenceError>::Done(page.rack_order)
    &&& page.exchange_available <==> page.state.bag@.len() >= page.rules.minimum_tiles_for_exchange
    &&& page.completed <==> page.state.status == GameStatus::Completed
}

/// A page of a game is that of the session's user, seated in the game, and all that it tells is
/// told of one journal: history, latest action, adjustments, played squares and the reason of the
/// end.
pub proof fn pages_tell_one_journal(
    trace: Trace,
    session: Option<Seq<char>>,
    game: Seq<char>,
    now: Timestamp,
    page: PageView,
)
    requires
        presentation::game_page_run(trace, session, game, now).outcome == Outcome::<
            PageView,
            PresentationError,
        >::Done(page),
    ensures
        exists|parts: PageParts| #[trigger]
            page_belongs(page, session, game, now, parts) && page_tells(page, parts),
{
    let first = presentation::authenticated_user_run(trace, session, now);
    let user_id = first.outcome->Done_0;
    let game_id = ids::parsed_id(game)->0;
    let second = game_service::player_for_user_run(first.trace, game_id, user_id);
    let player = second.outcome->Done_0;
    let third = journal::recover_game_run(second.trace, game_id);
    let state = third.outcome->Done_0;
    assert(presentation::supported_run(third.trace, user_id, game_id, player, state).outcome
        == Outcome::<PageView, PresentationError>::Done(page));
    let rules = third.trace.reply()->Rules_0;
    let start = third.trace.next().next();
    assert(presentation::journaled_run(start, user_id, game_id, player, state, rules).outcome
        == Outcome::<PageView, PresentationError>::Done(page));
    let fourth = journal::load_events_run(start, game_id, 0);
    let records = fourth.outcome->Done_0;
    let events = journal::event_refs(records);
    let fifth = presentation::people_run(fourth.trace, game_id, user_id);
    let people = fifth.outcome->Done_0;
    let names = presentation::page_names(player, people.0, people.1);
    assert(presentation::told_run(
        fifth.trace,
        user_id,
        game_id,
        player,
        state,
        rules,
        events,
        people,
    ).outcome == Outcome::<PageView, PresentationError>::Done(page));
    let sixth = move_history::move_history_run(fifth.trace, events, rules, names);
    let seventh = move_history::adjustments_run(sixth.trace, None, events, 0);
    let parts = PageParts {
        session: trace,
        seat: first.trace,
        recovery: second.trace,
        rules: third.trace,
        journal: start,
        people: fourth.trace,
        history: fifth.trace,
        adjustments: sixth.trace,
        rack: seventh.trace,
        records,
    };
    assert(names.name(player) == people.0.display_name);
    assert forall|other: PlayerId| other != player implies #[trigger] names.name(other)
        == people.1.display_name by {
        reveal_with_fuel(NamesView::name_from, 3);
    }
    assert(page_belongs(page, session, game, now, parts));
    assert(page_tells(page, parts));
}

} // verus!
