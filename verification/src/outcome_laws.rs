//! What the projections of a game say of its players: who did what, who won, and how often.
use crate::game::{GameEvent, GameState, GameStatus, PlayerId};
use crate::ids;
use crate::model::{self, Record, Store};
use crate::projection_laws::{self, seat_op};
use crate::projections::{self, GameResult, TotalsView};
use crate::script::Reply;
use crate::store::{Datum, Relation, Row};
use crate::text;
use crate::totals;
use vstd::prelude::*;

verus! {

/// Whether a column names the user who holds a player's seat in a game; where nobody does, it is
/// empty.
pub open spec fn names_holder(
    held: Datum,
    seats: Seq<Record>,
    game: Seq<char>,
    player: PlayerId,
) -> bool {
    let found = model::found(
        seats,
        seq![
            ("game_id"@, Relation::Equal, Datum::Text(game)),
            ("game_player_id"@, Relation::Equal, Datum::Text(ids::id_text_of(player))),
        ],
    );
    if found.len() > 0 {
        match model::datum_in(found[0], "user_id"@) {
            Datum::Text(user) => held == Datum::Text(user),
            _ => held == Datum::Null,
        }
    } else {
        held == Datum::Null
    }
}

proof fn holders_are_named(seats: Seq<Record>, game: Seq<char>, player: PlayerId)
    ensures
        names_holder(
            match projection_laws::user_in(seats, game, Some(player)) {
                Some(user) => Datum::Text(user),
                None => Datum::Null,
            },
            seats,
            game,
            player,
        ),
{
    assert(seat_op(game, player).filters =~= seq![
        ("game_id"@, Relation::Equal, Datum::Text(game)),
        ("game_player_id"@, Relation::Equal, Datum::Text(ids::id_text_of(player))),
    ]);
}

/// Whether a row of the history says what kind of event it is, whose, and what it scored.
pub open spec fn tells(
    record: Record,
    seats: Seq<Record>,
    game: Seq<char>,
    event: GameEvent,
) -> bool {
    let kind = model::datum_in(record, "event_kind"@);
    let delta = model::datum_in(record, "score_delta"@);
    let player = model::datum_in(record, "player_user_id"@);
    match event {
        GameEvent::GameStarted { .. } => kind == Datum::Text("GAME_STARTED"@) && delta
            == Datum::Integer(0) && player == Datum::Null,
        GameEvent::TilesPlayed { player_id, score, .. } => kind == Datum::Text("TILES_PLAYED"@)
            && delta == Datum::Integer(score as int) && names_holder(
            player,
            seats,
            game,
            player_id,
        ),
        GameEvent::TilesExchanged { player_id, .. } => kind == Datum::Text("TILES_EXCHANGED"@)
            && delta == Datum::Integer(0) && names_holder(player, seats, game, player_id),
        GameEvent::TurnPassed { player_id } => kind == Datum::Text("TURN_PASSED"@) && delta
            == Datum::Integer(0) && names_holder(player, seats, game, player_id),
        GameEvent::GameResigned { player_id, .. } => kind == Datum::Text("GAME_RESIGNED"@) && delta
            == Datum::Integer(0) && names_holder(player, seats, game, player_id),
        GameEvent::GameCompleted { .. } => kind == Datum::Text("GAME_COMPLETED"@) && delta
            == Datum::Integer(0) && player == Datum::Null,
    }
}

proof fn history_row_tells(
    seats: Seq<Record>,
    game: Seq<char>,
    revision: int,
    event: GameEvent,
    updated_at_ms: i64,
)
    requires
        0 <= revision <= u64::MAX,
    ensures
        ({
            let record = projection_laws::history_record(
                seats,
                game,
                revision,
                event,
                updated_at_ms,
            );
            &&& tells(record, seats, game, event)
            &&& model::datum_in(record, "game_id"@) == Datum::Text(game)
            &&& model::datum_in(record, "revision"@) == Datum::Integer(revision)
            &&& model::datum_in(record, "created_at_ms"@) == Datum::Integer(updated_at_ms as int)
        }),
{
    let player = projections::history_of(event).0;
    let user = projection_laws::user_in(seats, game, player);
    let values = projections::insert_move_op(
        game,
        revision as u64,
        user,
        event,
        updated_at_ms,
    ).values;
    reveal_strlit("move_id");
    reveal_strlit("game_id");
    reveal_strlit("revision");
    reveal_strlit("player_user_id");
    reveal_strlit("event_kind");
    reveal_strlit("score_delta");
    reveal_strlit("created_at_ms");
    assert("move_id"@.len() == 7 && "move_id"@[0] == 'm');
    assert("game_id"@.len() == 7 && "game_id"@[0] == 'g');
    assert("revision"@.len() == 8);
    assert("player_user_id"@.len() == 14);
    assert("event_kind"@.len() == 10);
    assert("score_delta"@.len() == 11);
    assert("created_at_ms"@.len() == 13);
    assert(values.len() == 7);
    model::assigned_sets(Map::empty(), values, 1);
    model::assigned_sets(Map::empty(), values, 2);
    model::assigned_sets(Map::empty(), values, 3);
    model::assigned_sets(Map::empty(), values, 4);
    model::assigned_sets(Map::empty(), values, 5);
    model::assigned_sets(Map::empty(), values, 6);
    if let Some(player) = player {
        holders_are_named(seats, game, player);
    }
}

/// The rows of a table that are of a game.
pub open spec fn rows_of(rows: Seq<Record>, game: Seq<char>) -> Seq<Record> {
    model::found(rows, seq![("game_id"@, Relation::Equal, Datum::Text(game))])
}

proof fn rows_of_game(others: Seq<Record>, own: Seq<Record>, game: Seq<char>)
    requires
        forall|i: int|
            0 <= i < own.len() ==> model::datum_in(#[trigger] own[i], "game_id"@) == Datum::Text(
                game,
            ),
    ensures
        rows_of(model::left(others, projection_laws::of_game(game)) + own, game) == own,
{
    let filters = seq![("game_id"@, Relation::Equal, Datum::Text(game))];
    assert(projection_laws::of_game(game) =~= filters);
    let rest = model::left(others, filters);
    model::left_rows(others, filters);
    model::found_rows(rest, filters);
    model::found_in_both(rest, own, filters);
    assert forall|i: int| 0 <= i < own.len() implies model::meets_all(
        #[trigger] own[i],
        filters,
    ) by {
        assert(model::meets(own[i], filters[0]));
    }
    model::all_found(own, filters);
    if model::found(rest, filters).len() > 0 {
        let i = choose|i: int| 0 <= i < rest.len() && model::meets_all(
            #[trigger] rest[i],
            filters,
        );
        assert(!model::meets_all(rest[i], filters));
    }
    assert(model::found(rest, filters) + own =~= own);
}

/// Whether the history of a game has one row for each of its events, in their order, with revisions
/// that end in that of the state.
pub open spec fn history_tells(
    after: Store,
    state: GameState,
    events: Seq<&GameEvent>,
    updated_at_ms: i64,
) -> bool {
    let game = ids::id_text_of(state.metadata.id);
    let seats = after.rows("game_players"@);
    let told = rows_of(after.rows("move_history"@), game);
    &&& told.len() == events.len()
    &&& forall|i: int|
        0 <= i < told.len() ==> tells(#[trigger] told[i], seats, game, *events[i])
            && model::datum_in(told[i], "revision"@) == Datum::Integer(
            state.revision - events.len() + i + 1,
        ) && model::datum_in(told[i], "created_at_ms"@) == Datum::Integer(updated_at_ms as int)
}

/// Projected histories tell every event, once and in order.
pub proof fn projected_histories_tell_the_events(
    before: Store,
    after: Store,
    state: GameState,
    events: Seq<&GameEvent>,
    updated_at_ms: i64,
)
    requires
        projection_laws::projected(before, after, state, events, updated_at_ms),
    ensures
        history_tells(after, state, events, updated_at_ms),
{
    projection_laws::tables_differ();
    let game = ids::id_text_of(state.metadata.id);
    let seats = before.rows("game_players"@);
    assert(after.rows("game_players"@) == seats);
    let from = (state.revision - events.len()) as u64;
    let own = projection_laws::history_records(seats, game, from, events, updated_at_ms, 0);
    assert forall|i: int| 0 <= i < own.len() implies tells(
        #[trigger] own[i],
        seats,
        game,
        *events[i],
    ) && model::datum_in(own[i], "game_id"@) == Datum::Text(game) && model::datum_in(
        own[i],
        "revision"@,
    ) == Datum::Integer(state.revision - events.len() + i + 1) && model::datum_in(
        own[i],
        "created_at_ms"@,
    ) == Datum::Integer(updated_at_ms as int) by {
        history_row_tells(seats, game, from + i + 1, *events[i], updated_at_ms);
    }
    rows_of_game(before.rows("move_history"@), own, game);
}

/// Whether a score is that of the last play among events.
pub open spec fn last_played(events: Seq<&GameEvent>, score: Datum) -> bool {
    ||| score == Datum::Null && forall|i: int|
        0 <= i < events.len() ==> !(*(#[trigger] events[i]) is TilesPlayed)
    ||| exists|last: int|
        0 <= last < events.len() && (*(#[trigger] events[last]) matches GameEvent::TilesPlayed {
            score: points,
            ..
        } && score == Datum::Integer(points as int)) && forall|i: int|
            last < i < events.len() ==> !(*(#[trigger] events[i]) is TilesPlayed)
}

proof fn last_play_scores(events: Seq<&GameEvent>)
    ensures
        last_played(events, projections::datum_of_score(projections::last_score_of(events))),
    decreases events.len(),
{
    if events.len() > 0 {
        let score = projections::datum_of_score(projections::last_score_of(events));
        let end = events.len() - 1;
        if *events[end] is TilesPlayed {
            assert(*events[end] matches GameEvent::TilesPlayed { score: points, .. } && score
                == Datum::Integer(points as int));
        } else {
            let less = events.drop_last();
            last_play_scores(less);
            assert(forall|i: int| 0 <= i < less.len() ==> less[i] == #[trigger] events[i]);
            if exists|last: int|
                0 <= last < less.len() && (*(#[trigger] less[last]) matches GameEvent::TilesPlayed {
                    score: points,
                    ..
                } && score == Datum::Integer(points as int)) && forall|i: int|
                    last < i < less.len() ==> !(*(#[trigger] less[i]) is TilesPlayed) {
                let last = choose|last: int|
                    0 <= last < less.len() && (*(
                    #[trigger] less[last]) matches GameEvent::TilesPlayed { score: points, .. }
                        && score == Datum::Integer(points as int)) && forall|i: int|
                        last < i < less.len() ==> !(*(#[trigger] less[i]) is TilesPlayed);
                assert(events[last] == less[last]);
                assert forall|i: int| last < i < events.len() implies !(*(
                #[trigger] events[i]) is TilesPlayed) by {
                    if i < end {
                        assert(less[i] == events[i]);
                    }
                }
            } else {
                assert forall|i: int| 0 <= i < events.len() implies !(*(
                #[trigger] events[i]) is TilesPlayed) by {
                    if i < end {
                        assert(less[i] == events[i]);
                    }
                }
            }
        }
    }
}

/// Whether a column names the winner of a game, if it has one.
pub open spec fn names_winner(
    held: Datum,
    seats: Seq<Record>,
    game: Seq<char>,
    winner: Option<PlayerId>,
) -> bool {
    match winner {
        Some(winner) => names_holder(held, seats, game, winner),
        None => held == Datum::Null,
    }
}

/// Whether a summary says where a game stands.
pub open spec fn sums_up(
    record: Record,
    seats: Seq<Record>,
    state: GameState,
    events: Seq<&GameEvent>,
    updated_at_ms: i64,
) -> bool {
    let game = ids::id_text_of(state.metadata.id);
    &&& model::datum_in(record, "status"@) == Datum::Text(
        match state.status {
            GameStatus::Active => "ACTIVE"@,
            GameStatus::Completed => "COMPLETED"@,
        },
    )
    &&& names_holder(
        model::datum_in(record, "active_player_user_id"@),
        seats,
        game,
        state.active_player,
    )
    &&& model::datum_in(record, "canonical_revision"@) == Datum::Integer(state.revision as int)
    &&& last_played(events, model::datum_in(record, "last_score"@))
    &&& names_winner(model::datum_in(record, "winner_user_id"@), seats, game, state.winner)
    &&& model::datum_in(record, "updated_at_ms"@) == Datum::Integer(updated_at_ms as int)
}

/// Whether a game has a summary that says where it stands.
pub open spec fn summary_tells(
    after: Store,
    state: GameState,
    events: Seq<&GameEvent>,
    updated_at_ms: i64,
) -> bool {
    let game = ids::id_text_of(state.metadata.id);
    let summaries = rows_of(after.rows("game_summaries"@), game);
    &&& summaries.len() > 0
    &&& forall|i: int|
        0 <= i < summaries.len() ==> sums_up(
            #[trigger] summaries[i],
            after.rows("game_players"@),
            state,
            events,
            updated_at_ms,
        )
}

/// A projected game has a summary, and it says where the game stands.
pub proof fn projected_summaries_tell_the_state(
    before: Store,
    after: Store,
    state: GameState,
    events: Seq<&GameEvent>,
    updated_at_ms: i64,
)
    requires
        projection_laws::projected(before, after, state, events, updated_at_ms),
    ensures
        summary_tells(after, state, events, updated_at_ms),
{
    projection_laws::tables_differ();
    let game = ids::id_text_of(state.metadata.id);
    let seats = before.rows("game_players"@);
    assert(after.rows("game_players"@) == seats);
    let op = projection_laws::summary_of(seats, state, events, updated_at_ms);
    reveal_strlit("game_id");
    reveal_strlit("status");
    reveal_strlit("active_player_user_id");
    reveal_strlit("canonical_revision");
    reveal_strlit("last_score");
    reveal_strlit("winner_user_id");
    reveal_strlit("updated_at_ms");
    assert("game_id"@.len() == 7);
    assert("status"@.len() == 6);
    assert("active_player_user_id"@.len() == 21);
    assert("canonical_revision"@.len() == 18);
    assert("last_score"@.len() == 10);
    assert("winner_user_id"@.len() == 14);
    assert("updated_at_ms"@.len() == 13);
    assert(op.values.len() == 7);
    assert(op.filters =~= seq![("game_id"@, Relation::Equal, Datum::Text(game))]);
    assert(model::executed(before, op).0.rows("game_summaries"@) == after.rows("game_summaries"@));
    model::upserted_rows_hold(before, op, 0, 1);
    model::upserted_rows_hold(before, op, 0, 2);
    model::upserted_rows_hold(before, op, 0, 3);
    model::upserted_rows_hold(before, op, 0, 4);
    model::upserted_rows_hold(before, op, 0, 5);
    model::upserted_rows_hold(before, op, 0, 6);
    holders_are_named(seats, game, state.active_player);
    if let Some(winner) = state.winner {
        holders_are_named(seats, game, winner);
    }
    last_play_scores(events);
}

/// Whether a score row says how a completed game went for a player: with no winner it is a tie,
/// else a win for the winner and a loss for anybody else.
pub open spec fn scores_player(
    record: Record,
    seats: Seq<Record>,
    state: GameState,
    player: PlayerId,
) -> bool {
    let outcome = model::datum_in(record, "outcome"@);
    &&& model::datum_in(record, "user_id"@) is Text
    &&& names_holder(
        model::datum_in(record, "user_id"@),
        seats,
        ids::id_text_of(state.metadata.id),
        player,
    )
    &&& model::datum_in(record, "score"@) == Datum::Integer(state.scores@[player] as int)
    &&& outcome == Datum::Text("TIE"@) <==> state.winner is None
    &&& outcome == Datum::Text("WIN"@) <==> state.winner == Some(player)
    &&& outcome == Datum::Text("LOSS"@) <==> state.winner is Some && state.winner != Some(player)
}

/// Whether a completed game has one score row for each player, in their order, and any other game
/// none.
pub open spec fn scores_tell(after: Store, state: GameState) -> bool {
    let scores = rows_of(after.rows("game_scores"@), ids::id_text_of(state.metadata.id));
    match state.status {
        GameStatus::Active => scores.len() == 0,
        GameStatus::Completed => scores.len() == state.players@.len() && forall|i: int|
            0 <= i < scores.len() ==> scores_player(
                #[trigger] scores[i],
                after.rows("game_players"@),
                state,
                state.players@[i],
            ),
    }
}

/// Projected scores say how the game went for each player.
pub proof fn projected_scores_tell_the_outcome(
    before: Store,
    after: Store,
    state: GameState,
    events: Seq<&GameEvent>,
    updated_at_ms: i64,
)
    requires
        projection_laws::projected(before, after, state, events, updated_at_ms),
    ensures
        scores_tell(after, state),
{
    projection_laws::tables_differ();
    let game = ids::id_text_of(state.metadata.id);
    let seats = before.rows("game_players"@);
    assert(after.rows("game_players"@) == seats);
    let own = projection_laws::final_scores(seats, state, updated_at_ms);
    reveal_strlit("game_player_score_id");
    reveal_strlit("game_id");
    reveal_strlit("user_id");
    reveal_strlit("score");
    reveal_strlit("outcome");
    reveal_strlit("updated_at_ms");
    assert("game_player_score_id"@.len() == 20);
    assert("game_id"@.len() == 7 && "game_id"@[0] == 'g');
    assert("user_id"@.len() == 7 && "user_id"@[0] == 'u');
    assert("score"@.len() == 5);
    assert("outcome"@.len() == 7 && "outcome"@[0] == 'o');
    assert("updated_at_ms"@.len() == 13);
    reveal_strlit("TIE");
    reveal_strlit("WIN");
    reveal_strlit("LOSS");
    assert("TIE"@.len() == 3 && "TIE"@[0] == 'T');
    assert("WIN"@.len() == 3 && "WIN"@[0] == 'W');
    assert("LOSS"@.len() == 4);
    assert forall|i: int| 0 <= i < own.len() implies scores_player(
        #[trigger] own[i],
        seats,
        state,
        state.players@[i],
    ) && model::datum_in(own[i], "game_id"@) == Datum::Text(game) by {
        let player = state.players@[i];
        let user = projection_laws::user_in(seats, game, Some(player))->0;
        let values = projections::insert_score_op(
            game,
            user,
            state,
            player,
            updated_at_ms,
        ).values;
        assert(values.len() == 6);
        model::assigned_sets(Map::empty(), values, 1);
        model::assigned_sets(Map::empty(), values, 2);
        model::assigned_sets(Map::empty(), values, 3);
        model::assigned_sets(Map::empty(), values, 4);
        holders_are_named(seats, game, player);
    }
    rows_of_game(before.rows("game_scores"@), own, game);
}

/// How many score rows are of a user.
pub open spec fn games_counted(scores: Seq<Record>, user: Seq<char>) -> int
    decreases scores.len(),
{
    if scores.len() == 0 {
        0
    } else {
        games_counted(scores.drop_last(), user) + if model::datum_in(scores.last(), "user_id"@)
            == Datum::Text(user) {
            1int
        } else {
            0
        }
    }
}

/// How many score rows of a user have an outcome.
pub open spec fn outcomes_counted(
    scores: Seq<Record>,
    user: Seq<char>,
    outcome: Seq<char>,
) -> int
    decreases scores.len(),
{
    if scores.len() == 0 {
        0
    } else {
        outcomes_counted(scores.drop_last(), user, outcome) + if model::datum_in(
            scores.last(),
            "user_id"@,
        ) == Datum::Text(user) && model::datum_in(scores.last(), "outcome"@) == Datum::Text(
            outcome,
        ) {
            1int
        } else {
            0
        }
    }
}

/// What the scores of a user add up to.
pub open spec fn points_counted(scores: Seq<Record>, user: Seq<char>) -> int
    decreases scores.len(),
{
    if scores.len() == 0 {
        0
    } else {
        points_counted(scores.drop_last(), user) + match (
            model::datum_in(scores.last(), "user_id"@),
            model::datum_in(scores.last(), "score"@),
        ) {
            (Datum::Text(held), Datum::Integer(points)) => if held == user {
                points
            } else {
                0
            },
            _ => 0,
        }
    }
}

proof fn tallies_count(rows: Seq<Row>, scores: Seq<Record>, user: Seq<char>)
    requires
        model::all_shown(rows, scores),
        projections::tally(rows) is Some,
    ensures
        totals::games_of(rows, user) == games_counted(scores, user),
        totals::results_of(rows, user, GameResult::Win) == outcomes_counted(scores, user, "WIN"@),
        totals::results_of(rows, user, GameResult::Tie) == outcomes_counted(scores, user, "TIE"@),
        totals::points_of(rows, user) == points_counted(scores, user),
    decreases rows.len(),
{
    if rows.len() > 0 {
        let less = rows.drop_last();
        let fewer = scores.drop_last();
        assert forall|i: int| 0 <= i < less.len() implies model::shows(
            #[trigger] less[i],
            fewer[i],
        ) by {
            assert(model::shows(rows[i], scores[i]));
        }
        tallies_count(less, fewer, user);
        let last = rows.len() - 1;
        assert(model::shows(rows[last], scores[last]));
        model::shown_values(rows[last], scores[last], "user_id"@);
        model::shown_values(rows[last], scores[last], "score"@);
        model::shown_values(rows[last], scores[last], "outcome"@);
        reveal_strlit("TIE");
        reveal_strlit("WIN");
        reveal_strlit("LOSS");
        assert("TIE"@.len() == 3 && "TIE"@[0] == 'T');
        assert("WIN"@.len() == 3 && "WIN"@[0] == 'W');
        assert("LOSS"@.len() == 4);
    }
}

/// Whether a row of the totals says how often a user has played, won and tied, and how many points
/// the user has made.
pub open spec fn totals_user(record: Record, scores: Seq<Record>, user: Seq<char>) -> bool {
    &&& model::datum_in(record, "completed_games"@) == Datum::Integer(games_counted(scores, user))
    &&& model::datum_in(record, "wins"@) == Datum::Integer(
        outcomes_counted(scores, user, "WIN"@),
    )
    &&& model::datum_in(record, "ties"@) == Datum::Integer(
        outcomes_counted(scores, user, "TIE"@),
    )
    &&& model::datum_in(record, "total_score"@) == Datum::Integer(points_counted(scores, user))
}

/// Whether the totals have one row for each user with a completed game, and none for anybody else.
pub open spec fn totals_count(store: Store) -> bool {
    let scores = store.rows("game_scores"@);
    forall|user: Seq<char>|
        #![trigger games_counted(scores, user)]
        {
            let own = model::found(
                store.rows("user_score_totals"@),
                seq![("user_id"@, Relation::Equal, Datum::Text(user))],
            );
            if games_counted(scores, user) > 0 {
                own.len() == 1 && totals_user(own[0], scores, user)
            } else {
                own.len() == 0
            }
        }
}

proof fn total_row_holds(total: TotalsView, updated_at_ms: i64)
    ensures
        ({
            let record = model::assigned(
                Map::empty(),
                projections::insert_totals_op(total, updated_at_ms).values,
            );
            &&& model::datum_in(record, "user_id"@) == Datum::Text(total.user_id)
            &&& model::datum_in(record, "completed_games"@) == Datum::Integer(
                total.completed_games as int,
            )
            &&& model::datum_in(record, "wins"@) == Datum::Integer(total.wins as int)
            &&& model::datum_in(record, "ties"@) == Datum::Integer(total.ties as int)
            &&& model::datum_in(record, "total_score"@) == Datum::Integer(
                total.total_score as int,
            )
        }),
{
    let values = projections::insert_totals_op(total, updated_at_ms).values;
    reveal_strlit("user_id");
    reveal_strlit("completed_games");
    reveal_strlit("wins");
    reveal_strlit("ties");
    reveal_strlit("total_score");
    reveal_strlit("updated_at_ms");
    assert("user_id"@.len() == 7);
    assert("completed_games"@.len() == 15);
    assert("wins"@.len() == 4 && "wins"@[0] == 'w');
    assert("ties"@.len() == 4 && "ties"@[0] == 't');
    assert("total_score"@.len() == 11);
    assert("updated_at_ms"@.len() == 13);
    assert(values.len() == 6);
    model::assigned_sets(Map::empty(), values, 0);
    model::assigned_sets(Map::empty(), values, 1);
    model::assigned_sets(Map::empty(), values, 2);
    model::assigned_sets(Map::empty(), values, 3);
    model::assigned_sets(Map::empty(), values, 4);
}

proof fn one_row_a_user(listed: Seq<TotalsView>, updated_at_ms: i64, user: Seq<char>)
    requires
        totals::ascending(listed),
    ensures
        ({
            let own = model::found(
                totals::total_records(listed, updated_at_ms),
                seq![("user_id"@, Relation::Equal, Datum::Text(user))],
            );
            if totals::lists(listed, user) {
                own.len() == 1 && exists|i: int|
                    0 <= i < listed.len() && (#[trigger] listed[i]).user_id == user && own[0]
                        == totals::total_records(listed, updated_at_ms)[i]
            } else {
                own.len() == 0
            }
        }),
    decreases listed.len(),
{
    let filters = seq![("user_id"@, Relation::Equal, Datum::Text(user))];
    let all = totals::total_records(listed, updated_at_ms);
    if listed.len() > 0 {
        let less = listed.drop_last();
        let fewer = totals::total_records(less, updated_at_ms);
        let end = listed.len() - 1;
        assert(all.drop_last() =~= fewer);
        assert forall|i: int, j: int| 0 <= i < j < less.len() implies text::precedes(
            (#[trigger] less[i]).user_id,
            (#[trigger] less[j]).user_id,
        ) by {
            assert(less[i] == listed[i] && less[j] == listed[j]);
        }
        one_row_a_user(less, updated_at_ms, user);
        total_row_holds(listed[end], updated_at_ms);
        assert(all.last() == all[end]);
        if listed[end].user_id == user {
            assert(model::meets(all.last(), filters[0]));
            assert(model::meets_all(all.last(), filters));
            text::precedes_irreflexive(user);
            if totals::lists(less, user) {
                let i = choose|i: int|
                    0 <= i < less.len() && (#[trigger] less[i]).user_id == user;
                assert(text::precedes(listed[i].user_id, listed[end].user_id));
            }
        } else {
            assert(!model::meets(all.last(), filters[0]));
            assert(!model::meets_all(all.last(), filters));
            if totals::lists(listed, user) {
                let i = choose|i: int|
                    0 <= i < listed.len() && (#[trigger] listed[i]).user_id == user;
                assert(less[i].user_id == user);
            }
            if totals::lists(less, user) {
                let i = choose|i: int|
                    0 <= i < less.len() && (#[trigger] less[i]).user_id == user && model::found(
                        fewer,
                        filters,
                    )[0] == fewer[i];
                assert(listed[i].user_id == user);
                assert(fewer[i] == all[i]);
            }
        }
    }
}

/// Totals that were tallied from the stored scores count them.
proof fn tallied_totals_count(
    after: Store,
    rows: Seq<Row>,
    listed: Seq<TotalsView>,
    updated_at_ms: i64,
)
    requires
        model::all_shown(rows, after.rows("game_scores"@)),
        projections::tally(rows) == Some(listed),
        after.rows("user_score_totals"@) == totals::total_records(listed, updated_at_ms),
    ensures
        totals_count(after),
{
    let scores = after.rows("game_scores"@);
    let all = totals::total_records(listed, updated_at_ms);
    totals::totals_add_up(rows, listed);
    assert forall|user: Seq<char>|
        #![trigger games_counted(scores, user)]
        {
            let own = model::found(
                all,
                seq![("user_id"@, Relation::Equal, Datum::Text(user))],
            );
            if games_counted(scores, user) > 0 {
                own.len() == 1 && totals_user(own[0], scores, user)
            } else {
                own.len() == 0
            }
        } by {
        tallies_count(rows, scores, user);
        one_row_a_user(listed, updated_at_ms, user);
        let held = totals::games_of(rows, user);
        if totals::lists(listed, user) {
            let own = model::found(
                all,
                seq![("user_id"@, Relation::Equal, Datum::Text(user))],
            );
            let i = choose|i: int|
                0 <= i < listed.len() && (#[trigger] listed[i]).user_id == user && own[0]
                    == all[i];
            assert(totals::adds_up(rows, listed[i]));
            total_row_holds(listed[i], updated_at_ms);
        }
    }
}

/// After a game is projected the totals count every completed game of every user.
pub proof fn projected_totals_count_every_game(
    before: Store,
    after: Store,
    state: GameState,
    events: Seq<&GameEvent>,
    updated_at_ms: i64,
)
    requires
        projection_laws::projected(before, after, state, events, updated_at_ms),
    ensures
        totals_count(after),
{
    let listed = choose|listed: Seq<TotalsView>|
        #[trigger] projection_laws::totals_from(after.rows("game_scores"@), listed)
            && after.rows("user_score_totals"@) == totals::total_records(listed, updated_at_ms);
    let rows = choose|rows: Seq<Row>|
        #[trigger] model::all_shown(rows, after.rows("game_scores"@)) && projections::tally(rows)
            == Some(listed);
    tallied_totals_count(after, rows, listed, updated_at_ms);
}

/// Rebuilding the totals alone counts every completed game of every user, too.
pub proof fn rebuilt_totals_count_every_game(
    updated_at_ms: i64,
    replies: Seq<Reply>,
    store: Store,
)
    requires
        model::served(totals::rebuilding(updated_at_ms), replies, store),
        model::ending(totals::rebuilding(updated_at_ms), replies) is Done,
    ensures
        totals_count(model::store_after(totals::rebuilding(updated_at_ms), replies, store)),
        model::store_after(totals::rebuilding(updated_at_ms), replies, store).rows(
            "game_scores"@,
        ) == store.rows("game_scores"@),
{
    totals::rebuilt_totals_replace_the_old(updated_at_ms, replies, store);
    let after = model::store_after(totals::rebuilding(updated_at_ms), replies, store);
    let rows = replies[0]->Rows_0@;
    let scores = store.rows("game_scores"@);
    assert forall|i: int| 0 <= i < scores.len() implies model::meets_all(
        #[trigger] scores[i],
        Seq::empty(),
    ) by {}
    model::all_found(scores, Seq::empty());
    tallied_totals_count(after, rows, projections::tally(rows)->0, updated_at_ms);
}

/// A rebuild that ends well: the history tells every event, the summary where the game stands, the
/// scores how it went for each player, and the totals count it.
pub proof fn rebuilt_projections_tell_the_game(
    state: GameState,
    events: Seq<&GameEvent>,
    updated_at_ms: i64,
    replies: Seq<Reply>,
    store: Store,
)
    requires
        model::served(
            projection_laws::projecting(state, events, updated_at_ms),
            replies,
            store,
        ),
        model::ending(projection_laws::projecting(state, events, updated_at_ms), replies) is Done,
    ensures
        ({
            let after = model::store_after(
                projection_laws::projecting(state, events, updated_at_ms),
                replies,
                store,
            );
            &&& history_tells(after, state, events, updated_at_ms)
            &&& summary_tells(after, state, events, updated_at_ms)
            &&& scores_tell(after, state)
            &&& totals_count(after)
        }),
{
    let after = model::store_after(
        projection_laws::projecting(state, events, updated_at_ms),
        replies,
        store,
    );
    projection_laws::rebuilds_project_the_game(state, events, updated_at_ms, replies, store);
    projected_histories_tell_the_events(store, after, state, events, updated_at_ms);
    projected_summaries_tell_the_state(store, after, state, events, updated_at_ms);
    projected_scores_tell_the_outcome(store, after, state, events, updated_at_ms);
    projected_totals_count_every_game(store, after, state, events, updated_at_ms);
}

} // verus!
