//! When a rebuild of a game's projections succeeds.
use crate::game::{GameEvent, GameId, GameState, GameStatus, PlayerId};
use crate::ids;
use crate::model::{self, Record, Store, Workflow};
use crate::order;
use crate::projection_laws;
use crate::projections::{self, HistoryView, ProjectionError, TotalsView};
use crate::script::{self, Outcome, Reply, Trace};
use crate::stages;
use crate::store::{self, Datum, Direction, Op, Row};
use vstd::prelude::*;

verus! {

/// Whether stored scores add up to totals that can be stored.
pub open spec fn adds_up(scores: Seq<Record>) -> bool {
    exists|rows: Seq<Row>|
        #[trigger] model::all_shown(rows, scores) && (projections::tally(rows) matches Some(totals)
            && forall|i: int| 0 <= i < totals.len() ==> projections::storable(#[trigger] totals[i]))
}

/// Whether every player from `index` on has a seat.
pub open spec fn all_seated(seats: Seq<Record>, state: GameState, index: int) -> bool {
    forall|i: int|
        index <= i < state.players@.len() ==> projection_laws::user_in(
            seats,
            ids::id_text_of(state.metadata.id),
            Some(#[trigger] state.players@[i]),
        ) is Some
}

/// Storing the checkpoint.
spec fn checking(state: GameState, updated_at_ms: i64) -> Workflow<(), ProjectionError> {
    |trace: Trace|
        script::query(
            trace,
            projections::checkpoint_op(
                ids::id_text_of(state.metadata.id),
                state.revision,
                updated_at_ms,
            ),
            |rows: Seq<Row>, trace: Trace| script::done(trace, ()),
        )
}

/// Writing the totals from `index` on, and the checkpoint behind them.
spec fn totalling(
    state: GameState,
    totals: Seq<TotalsView>,
    updated_at_ms: i64,
    index: int,
) -> Workflow<(), ProjectionError> {
    |trace: Trace|
        script::chain(
            projections::write_totals_run(trace, totals, updated_at_ms, index),
            |written: (), trace: Trace| checking(state, updated_at_ms)(trace),
        )
}

/// Totals are written where each of them can be stored.
proof fn totals_end(
    state: GameState,
    totals: Seq<TotalsView>,
    updated_at_ms: i64,
    index: int,
    replies: Seq<Reply>,
    from: int,
    store: Store,
)
    requires
        0 <= index <= totals.len(),
        stages::underway(
            totalling(state, totals, updated_at_ms, index),
            replies,
            from,
            store,
            stages::anything(),
        ),
    ensures
        totalling(state, totals, updated_at_ms, index)(Trace { replies, at: from }).outcome is Done
            <==> (forall|i: int|
            index <= i < totals.len() ==> projections::storable(#[trigger] totals[i])),
    decreases totals.len() - index,
{
    let fits = stages::anything();
    let stage = totalling(state, totals, updated_at_ms, index);
    if index < totals.len() {
        if projections::storable(totals[index]) {
            let op = projections::insert_totals_op(totals[index], updated_at_ms);
            let next = totalling(state, totals, updated_at_ms, index + 1);
            let rest = |rows: Seq<Row>, trace: Trace| next(trace);
            assert forall|trace: Trace| #[trigger] stage(trace) == script::query(
                trace,
                op,
                rest,
            ) by {}
            let rows = stages::asks_store(stage, op, rest, replies, from, store, fits);
            let second: Workflow<(), ProjectionError> = |trace: Trace| rest(rows, trace);
            assert(second =~= next);
            totals_end(
                state,
                totals,
                updated_at_ms,
                index + 1,
                replies,
                from + 1,
                model::executed(store, op).0,
            );
        }
    } else {
        let op = projections::checkpoint_op(
            ids::id_text_of(state.metadata.id),
            state.revision,
            updated_at_ms,
        );
        let rest = |rows: Seq<Row>, trace: Trace|
            script::done::<(), ProjectionError>(trace, ());
        assert forall|trace: Trace| #[trigger] stage(trace) == script::query(
            trace,
            op,
            rest,
        ) by {}
        let rows = stages::asks_store(stage, op, rest, replies, from, store, fits);
    }
}

/// Adding up the scores, and storing totals and checkpoint.
spec fn adding(state: GameState, updated_at_ms: i64) -> Workflow<(), ProjectionError> {
    |trace: Trace|
        script::chain(
            projections::rebuild_totals_run(trace, updated_at_ms),
            |written: (), trace: Trace| checking(state, updated_at_ms)(trace),
        )
}

/// Scores that add up are added up.
proof fn adding_ends(
    state: GameState,
    updated_at_ms: i64,
    replies: Seq<Reply>,
    from: int,
    store: Store,
)
    requires
        stages::underway(
            adding(state, updated_at_ms),
            replies,
            from,
            store,
            stages::anything(),
        ),
    ensures
        adding(state, updated_at_ms)(Trace { replies, at: from }).outcome is Done <==> adds_up(
            store.rows("game_scores"@),
        ),
{
    let fits = stages::anything();
    let stage = adding(state, updated_at_ms);
    let select = Op::select("game_scores"@);
    let delete = Op::delete("user_score_totals"@);
    let rest = |rows: Seq<Row>, trace: Trace|
        match projections::tally(rows) {
            None => script::fail(trace, ProjectionError::Malformed),
            Some(totals) => script::query(
                trace,
                delete,
                |gone: Seq<Row>, trace: Trace|
                    totalling(state, totals, updated_at_ms, 0)(trace),
            ),
        };
    assert forall|trace: Trace| #[trigger] stage(trace) == script::query(
        trace,
        select,
        rest,
    ) by {}
    let rows = stages::asks_store(stage, select, rest, replies, from, store, fits);
    let scores = store.rows("game_scores"@);
    model::all_found(scores, select.filters);
    assert(model::executed(store, select).1 == scores);
    assert forall|other: Seq<Row>| #[trigger] model::all_shown(
        other,
        scores,
    ) implies projections::tally(other) == projections::tally(rows) by {
        projection_laws::one_tally(other, rows, scores);
    }
    if let Some(totals) = projections::tally(rows) {
        let second: Workflow<(), ProjectionError> = |trace: Trace| rest(rows, trace);
        let next = totalling(state, totals, updated_at_ms, 0);
        let tail = |gone: Seq<Row>, trace: Trace| next(trace);
        assert forall|trace: Trace| #[trigger] second(trace) == script::query(
            trace,
            delete,
            tail,
        ) by {}
        let gone = stages::asks_store(second, delete, tail, replies, from + 1, store, fits);
        let third: Workflow<(), ProjectionError> = |trace: Trace| tail(gone, trace);
        assert(third =~= next);
        totals_end(
            state,
            totals,
            updated_at_ms,
            0,
            replies,
            from + 2,
            model::executed(store, delete).0,
        );
        assert(model::all_shown(rows, scores));
    }
}

/// The rows that a store shows for a seat name its user.
proof fn seat_is_read(seats: Seq<Record>, game: Seq<char>, player: PlayerId, rows: Seq<Row>)
    requires
        model::all_shown(
            rows,
            model::found(seats, projection_laws::seat_op(game, player).filters),
        ),
    ensures
        store::first_text_of(rows, "user_id"@) == projection_laws::user_in(
            seats,
            game,
            Some(player),
        ),
{
    let hits = model::found(seats, projection_laws::seat_op(game, player).filters);
    if hits.len() > 0 {
        assert(model::shows(rows[0], hits[0]));
        model::shown_values(rows[0], hits[0], "user_id"@);
    }
}

/// Writing the scores from `index` on, and going on.
spec fn scoring(state: GameState, updated_at_ms: i64, index: int) -> Workflow<
    (),
    ProjectionError,
> {
    |trace: Trace|
        script::chain(
            projections::write_scores_run(
                trace,
                ids::id_text_of(state.metadata.id),
                state,
                updated_at_ms,
                index,
            ),
            |written: (), trace: Trace| adding(state, updated_at_ms)(trace),
        )
}

/// Scores of seated players are written.
proof fn scoring_ends(
    state: GameState,
    updated_at_ms: i64,
    index: int,
    replies: Seq<Reply>,
    from: int,
    store: Store,
)
    requires
        0 <= index <= state.players@.len(),
        stages::underway(
            scoring(state, updated_at_ms, index),
            replies,
            from,
            store,
            stages::anything(),
        ),
    ensures
        scoring(state, updated_at_ms, index)(Trace { replies, at: from }).outcome is Done <==> (
        all_seated(store.rows("game_players"@), state, index) && adds_up(
            store.rows("game_scores"@) + projection_laws::score_records(
                store.rows("game_players"@),
                state,
                updated_at_ms,
                index,
            ),
        )),
    decreases state.players@.len() - index,
{
    let fits = stages::anything();
    let stage = scoring(state, updated_at_ms, index);
    let game = ids::id_text_of(state.metadata.id);
    let seats = store.rows("game_players"@);
    let scores = store.rows("game_scores"@);
    let records = projection_laws::score_records(seats, state, updated_at_ms, index);
    projection_laws::tables_differ();
    if index < state.players@.len() {
        let player = state.players@[index];
        let select = projection_laws::seat_op(game, player);
        let next = scoring(state, updated_at_ms, index + 1);
        let tail = |rows: Seq<Row>, trace: Trace| next(trace);
        let rest = |rows: Seq<Row>, trace: Trace|
            match store::first_text_of(rows, "user_id"@) {
                None => script::fail(trace, ProjectionError::Malformed),
                Some(user) => script::query(
                    trace,
                    projections::insert_score_op(game, user, state, player, updated_at_ms),
                    tail,
                ),
            };
        assert forall|trace: Trace| #[trigger] stage(trace) == script::query(
            trace,
            select,
            rest,
        ) by {}
        let rows = stages::asks_store(stage, select, rest, replies, from, store, fits);
        seat_is_read(seats, game, player, rows);
        let user = projection_laws::user_in(seats, game, Some(player));
        if user is Some {
            let insert = projections::insert_score_op(
                game,
                user->0,
                state,
                player,
                updated_at_ms,
            );
            let second: Workflow<(), ProjectionError> = |trace: Trace| rest(rows, trace);
            assert forall|trace: Trace| #[trigger] second(trace) == script::query(
                trace,
                insert,
                tail,
            ) by {}
            let done = stages::asks_store(second, insert, tail, replies, from + 1, store, fits);
            let third: Workflow<(), ProjectionError> = |trace: Trace| tail(done, trace);
            assert(third =~= next);
            let inserted = model::executed(store, insert).0;
            scoring_ends(state, updated_at_ms, index + 1, replies, from + 2, inserted);
            assert(inserted.rows("game_players"@) == seats);
            assert(inserted.rows("game_scores"@) == scores.push(records[0]));
            assert(scores.push(records[0]) + projection_laws::score_records(
                seats,
                state,
                updated_at_ms,
                index + 1,
            ) =~= scores + records);
        }
    } else {
        let next = adding(state, updated_at_ms);
        assert forall|trace: Trace| #[trigger] stage(trace) == next(trace) by {}
        stages::same_underway(stage, next, replies, from, store, fits);
        adding_ends(state, updated_at_ms, replies, from, store);
        assert(scores + records =~= scores);
    }
}

/// Whether the projections of a game can be rebuilt over a store: where the game is completed every
/// player has a seat, and the scores that are left with the game's own add up.
pub open spec fn can_settle(store: Store, state: GameState, updated_at_ms: i64) -> bool {
    let seats = store.rows("game_players"@);
    &&& state.status == GameStatus::Completed ==> all_seated(seats, state, 0)
    &&& adds_up(
        model::left(
            store.rows("game_scores"@),
            projection_laws::of_game(ids::id_text_of(state.metadata.id)),
        ) + projection_laws::final_scores(seats, state, updated_at_ms),
    )
}

/// Rebuilding the scores, and storing the checkpoint.
spec fn settling(state: GameState, updated_at_ms: i64) -> Workflow<(), ProjectionError> {
    |trace: Trace|
        script::chain(
            projections::rebuild_scores_run(trace, state, updated_at_ms),
            |rebuilt: (), trace: Trace| checking(state, updated_at_ms)(trace),
        )
}

/// What follows when the old scores are gone.
spec fn resettling(state: GameState, updated_at_ms: i64) -> Workflow<(), ProjectionError> {
    if state.status == GameStatus::Completed {
        scoring(state, updated_at_ms, 0)
    } else {
        adding(state, updated_at_ms)
    }
}

/// Rebuilding the scores begins with removing the old ones.
proof fn settling_begins(state: GameState, updated_at_ms: i64, trace: Trace)
    ensures
        settling(state, updated_at_ms)(trace) == script::query(
            trace,
            Op::delete("game_scores"@).where_text("game_id"@, ids::id_text_of(state.metadata.id)),
            |rows: Seq<Row>, trace: Trace| resettling(state, updated_at_ms)(trace),
        ),
{
}

/// Scores are rebuilt where they can be.
proof fn settling_ends(
    state: GameState,
    updated_at_ms: i64,
    replies: Seq<Reply>,
    from: int,
    store: Store,
)
    requires
        stages::underway(
            settling(state, updated_at_ms),
            replies,
            from,
            store,
            stages::anything(),
        ),
    ensures
        settling(state, updated_at_ms)(Trace { replies, at: from }).outcome is Done <==> can_settle(
            store,
            state,
            updated_at_ms,
        ),
{
    let fits = stages::anything();
    let stage = settling(state, updated_at_ms);
    let game = ids::id_text_of(state.metadata.id);
    let seats = store.rows("game_players"@);
    let delete = Op::delete("game_scores"@).where_text("game_id"@, game);
    let next = resettling(state, updated_at_ms);
    let rest = |rows: Seq<Row>, trace: Trace| next(trace);
    assert forall|trace: Trace| #[trigger] stage(trace) == script::query(
        trace,
        delete,
        rest,
    ) by {
        settling_begins(state, updated_at_ms, trace);
    }
    let rows = stages::asks_store(stage, delete, rest, replies, from, store, fits);
    let second: Workflow<(), ProjectionError> = |trace: Trace| rest(rows, trace);
    assert(second =~= next);
    let cleared = model::executed(store, delete).0;
    let kept = model::left(store.rows("game_scores"@), projection_laws::of_game(game));
    projection_laws::tables_differ();
    assert(delete.filters =~= projection_laws::of_game(game));
    assert(cleared.rows("game_scores"@) == kept);
    assert(cleared.rows("game_players"@) == seats);
    if state.status == GameStatus::Completed {
        scoring_ends(state, updated_at_ms, 0, replies, from + 1, cleared);
    } else {
        adding_ends(state, updated_at_ms, replies, from + 1, cleared);
        assert(kept + projection_laws::final_scores(seats, state, updated_at_ms) =~= kept);
    }
}

/// Rebuilding what follows the history.
spec fn finishing(state: GameState, events: Seq<&GameEvent>, updated_at_ms: i64) -> Workflow<
    (),
    ProjectionError,
> {
    |trace: Trace| projections::rebuild_rest_run(trace, state, events, updated_at_ms)
}

/// Storing the summary, and going on.
spec fn summing(
    state: GameState,
    events: Seq<&GameEvent>,
    updated_at_ms: i64,
    active: Option<Seq<char>>,
    winner: Option<Seq<char>>,
) -> Workflow<(), ProjectionError> {
    |trace: Trace|
        script::query(
            trace,
            projections::summary_op(
                ids::id_text_of(state.metadata.id),
                state,
                events,
                active,
                winner,
                updated_at_ms,
            ),
            |rows: Seq<Row>, trace: Trace| settling(state, updated_at_ms)(trace),
        )
}

/// Finding the winner, and going on.
spec fn crowning(
    state: GameState,
    events: Seq<&GameEvent>,
    updated_at_ms: i64,
    active: Option<Seq<char>>,
) -> Workflow<(), ProjectionError> {
    |trace: Trace|
        match state.winner {
            None => summing(state, events, updated_at_ms, active, None)(trace),
            Some(winner) => script::query(
                trace,
                projection_laws::seat_op(ids::id_text_of(state.metadata.id), winner),
                |rows: Seq<Row>, trace: Trace|
                    summing(
                        state,
                        events,
                        updated_at_ms,
                        active,
                        store::first_text_of(rows, "user_id"@),
                    )(trace),
            ),
        }
}

/// What follows the history begins with the player whose turn it is.
proof fn finishing_begins(
    state: GameState,
    events: Seq<&GameEvent>,
    updated_at_ms: i64,
    trace: Trace,
)
    requires
        state.revision <= i64::MAX,
    ensures
        finishing(state, events, updated_at_ms)(trace) == script::query(
            trace,
            projection_laws::seat_op(ids::id_text_of(state.metadata.id), state.active_player),
            |rows: Seq<Row>, trace: Trace|
                crowning(
                    state,
                    events,
                    updated_at_ms,
                    store::first_text_of(rows, "user_id"@),
                )(trace),
        ),
{
}

/// Storing the summary changes nothing that the scores are rebuilt from.
proof fn summing_ends(
    state: GameState,
    events: Seq<&GameEvent>,
    updated_at_ms: i64,
    active: Option<Seq<char>>,
    winner: Option<Seq<char>>,
    replies: Seq<Reply>,
    from: int,
    store: Store,
)
    requires
        stages::underway(
            summing(state, events, updated_at_ms, active, winner),
            replies,
            from,
            store,
            stages::anything(),
        ),
    ensures
        summing(state, events, updated_at_ms, active, winner)(
            Trace { replies, at: from },
        ).outcome is Done <==> can_settle(store, state, updated_at_ms),
{
    let fits = stages::anything();
    let stage = summing(state, events, updated_at_ms, active, winner);
    let op = projections::summary_op(
        ids::id_text_of(state.metadata.id),
        state,
        events,
        active,
        winner,
        updated_at_ms,
    );
    let next = settling(state, updated_at_ms);
    let rest = |rows: Seq<Row>, trace: Trace| next(trace);
    assert forall|trace: Trace| #[trigger] stage(trace) == script::query(trace, op, rest) by {}
    let rows = stages::asks_store(stage, op, rest, replies, from, store, fits);
    let second: Workflow<(), ProjectionError> = |trace: Trace| rest(rows, trace);
    assert(second =~= next);
    let summed = model::executed(store, op).0;
    settling_ends(state, updated_at_ms, replies, from + 1, summed);
    projection_laws::tables_differ();
    assert(summed.rows("game_players"@) == store.rows("game_players"@));
    assert(summed.rows("game_scores"@) == store.rows("game_scores"@));
}

/// What follows the history ends well where the scores can be rebuilt.
proof fn finishing_ends(
    state: GameState,
    events: Seq<&GameEvent>,
    updated_at_ms: i64,
    replies: Seq<Reply>,
    from: int,
    store: Store,
)
    requires
        state.revision <= i64::MAX,
        stages::underway(
            finishing(state, events, updated_at_ms),
            replies,
            from,
            store,
            stages::anything(),
        ),
    ensures
        finishing(state, events, updated_at_ms)(Trace { replies, at: from }).outcome is Done
            <==> can_settle(store, state, updated_at_ms),
{
    let fits = stages::anything();
    let stage = finishing(state, events, updated_at_ms);
    let game = ids::id_text_of(state.metadata.id);
    let select = projection_laws::seat_op(game, state.active_player);
    let rest = |rows: Seq<Row>, trace: Trace|
        crowning(state, events, updated_at_ms, store::first_text_of(rows, "user_id"@))(trace);
    assert forall|trace: Trace| #[trigger] stage(trace) == script::query(
        trace,
        select,
        rest,
    ) by {
        finishing_begins(state, events, updated_at_ms, trace);
    }
    let rows = stages::asks_store(stage, select, rest, replies, from, store, fits);
    let active = store::first_text_of(rows, "user_id"@);
    let second: Workflow<(), ProjectionError> = |trace: Trace| rest(rows, trace);
    let crowned = crowning(state, events, updated_at_ms, active);
    assert(second =~= crowned);
    match state.winner {
        None => {
            let next = summing(state, events, updated_at_ms, active, None);
            assert(crowned =~= next);
            summing_ends(state, events, updated_at_ms, active, None, replies, from + 1, store);
        },
        Some(winner) => {
            let seat = projection_laws::seat_op(game, winner);
            let tail = |rows: Seq<Row>, trace: Trace|
                summing(
                    state,
                    events,
                    updated_at_ms,
                    active,
                    store::first_text_of(rows, "user_id"@),
                )(trace);
            assert forall|trace: Trace| #[trigger] crowned(trace) == script::query(
                trace,
                seat,
                tail,
            ) by {}
            let won = stages::asks_store(crowned, seat, tail, replies, from + 1, store, fits);
            let third: Workflow<(), ProjectionError> = |trace: Trace| tail(won, trace);
            let found = store::first_text_of(won, "user_id"@);
            let next = summing(state, events, updated_at_ms, active, found);
            assert(third =~= next);
            summing_ends(state, events, updated_at_ms, active, found, replies, from + 2, store);
        },
    }
}

/// Writing the history from `index` on, and going on.
spec fn telling(
    state: GameState,
    before: u64,
    events: Seq<&GameEvent>,
    updated_at_ms: i64,
    index: int,
) -> Workflow<(), ProjectionError> {
    |trace: Trace|
        script::chain(
            projections::write_history_run(
                trace,
                ids::id_text_of(state.metadata.id),
                before,
                events,
                updated_at_ms,
                index,
            ),
            |written: (), trace: Trace| finishing(state, events, updated_at_ms)(trace),
        )
}

/// Writing one event's row, and going on.
spec fn noting(
    state: GameState,
    before: u64,
    events: Seq<&GameEvent>,
    updated_at_ms: i64,
    index: int,
    user: Option<Seq<char>>,
) -> Workflow<(), ProjectionError> {
    |trace: Trace|
        script::query(
            trace,
            projections::insert_move_op(
                ids::id_text_of(state.metadata.id),
                (before + index + 1) as u64,
                user,
                *events[index],
                updated_at_ms,
            ),
            |rows: Seq<Row>, trace: Trace|
                telling(state, before, events, updated_at_ms, index + 1)(trace),
        )
}

/// The history goes on with the user of an event, if it has a player.
proof fn telling_begins(
    state: GameState,
    before: u64,
    events: Seq<&GameEvent>,
    updated_at_ms: i64,
    index: int,
    trace: Trace,
)
    requires
        0 <= index < events.len(),
        before + events.len() <= i64::MAX,
    ensures
        telling(state, before, events, updated_at_ms, index)(trace) == (
        match projections::history_of(*events[index]).0 {
            None => noting(state, before, events, updated_at_ms, index, None)(trace),
            Some(player) => script::query(
                trace,
                projection_laws::seat_op(ids::id_text_of(state.metadata.id), player),
                |rows: Seq<Row>, trace: Trace|
                    noting(
                        state,
                        before,
                        events,
                        updated_at_ms,
                        index,
                        store::first_text_of(rows, "user_id"@),
                    )(trace),
            ),
        }),
{
}

/// The history is written, and what follows it ends well where the scores can be rebuilt.
proof fn telling_ends(
    state: GameState,
    before: u64,
    events: Seq<&GameEvent>,
    updated_at_ms: i64,
    index: int,
    replies: Seq<Reply>,
    from: int,
    store: Store,
)
    requires
        0 <= index <= events.len(),
        before + events.len() <= i64::MAX,
        state.revision <= i64::MAX,
        stages::underway(
            telling(state, before, events, updated_at_ms, index),
            replies,
            from,
            store,
            stages::anything(),
        ),
    ensures
        telling(state, before, events, updated_at_ms, index)(Trace { replies, at: from }).outcome
            is Done <==> can_settle(store, state, updated_at_ms),
    decreases events.len() - index, 1int,
{
    let fits = stages::anything();
    let stage = telling(state, before, events, updated_at_ms, index);
    let game = ids::id_text_of(state.metadata.id);
    if index < events.len() {
        match projections::history_of(*events[index]).0 {
            None => {
                let next = noting(state, before, events, updated_at_ms, index, None);
                assert forall|trace: Trace| #[trigger] stage(trace) == next(trace) by {
                    telling_begins(state, before, events, updated_at_ms, index, trace);
                }
                stages::same_underway(stage, next, replies, from, store, fits);
                noting_ends(
                    state,
                    before,
                    events,
                    updated_at_ms,
                    index,
                    None,
                    replies,
                    from,
                    store,
                );
            },
            Some(player) => {
                let select = projection_laws::seat_op(game, player);
                let rest = |rows: Seq<Row>, trace: Trace|
                    noting(
                        state,
                        before,
                        events,
                        updated_at_ms,
                        index,
                        store::first_text_of(rows, "user_id"@),
                    )(trace);
                assert forall|trace: Trace| #[trigger] stage(trace) == script::query(
                    trace,
                    select,
                    rest,
                ) by {
                    telling_begins(state, before, events, updated_at_ms, index, trace);
                }
                let rows = stages::asks_store(stage, select, rest, replies, from, store, fits);
                let user = store::first_text_of(rows, "user_id"@);
                let second: Workflow<(), ProjectionError> = |trace: Trace| rest(rows, trace);
                let next = noting(state, before, events, updated_at_ms, index, user);
                assert(second =~= next);
                noting_ends(
                    state,
                    before,
                    events,
                    updated_at_ms,
                    index,
                    user,
                    replies,
                    from + 1,
                    store,
                );
            },
        }
    } else {
        let next = finishing(state, events, updated_at_ms);
        assert forall|trace: Trace| #[trigger] stage(trace) == next(trace) by {}
        stages::same_underway(stage, next, replies, from, store, fits);
        finishing_ends(state, events, updated_at_ms, replies, from, store);
    }
}

/// One row of the history is written, and the rest behind it.
proof fn noting_ends(
    state: GameState,
    before: u64,
    events: Seq<&GameEvent>,
    updated_at_ms: i64,
    index: int,
    user: Option<Seq<char>>,
    replies: Seq<Reply>,
    from: int,
    store: Store,
)
    requires
        0 <= index < events.len(),
        before + events.len() <= i64::MAX,
        state.revision <= i64::MAX,
        stages::underway(
            noting(state, before, events, updated_at_ms, index, user),
            replies,
            from,
            store,
            stages::anything(),
        ),
    ensures
        noting(state, before, events, updated_at_ms, index, user)(
            Trace { replies, at: from },
        ).outcome is Done <==> can_settle(store, state, updated_at_ms),
    decreases events.len() - index, 0int,
{
    let fits = stages::anything();
    let stage = noting(state, before, events, updated_at_ms, index, user);
    let op = projections::insert_move_op(
        ids::id_text_of(state.metadata.id),
        (before + index + 1) as u64,
        user,
        *events[index],
        updated_at_ms,
    );
    let next = telling(state, before, events, updated_at_ms, index + 1);
    let rest = |rows: Seq<Row>, trace: Trace| next(trace);
    assert forall|trace: Trace| #[trigger] stage(trace) == script::query(trace, op, rest) by {}
    let rows = stages::asks_store(stage, op, rest, replies, from, store, fits);
    let second: Workflow<(), ProjectionError> = |trace: Trace| rest(rows, trace);
    assert(second =~= next);
    let noted = model::executed(store, op).0;
    telling_ends(state, before, events, updated_at_ms, index + 1, replies, from + 1, noted);
    projection_laws::tables_differ();
    assert(noted.rows("game_players"@) == store.rows("game_players"@));
    assert(noted.rows("game_scores"@) == store.rows("game_scores"@));
}

/// A rebuild of events that the state's revision covers ends well exactly where the scores can be
/// rebuilt.
pub proof fn rebuilds_succeed(
    state: GameState,
    events: Seq<&GameEvent>,
    updated_at_ms: i64,
    replies: Seq<Reply>,
    store: Store,
)
    requires
        events.len() <= state.revision <= i64::MAX,
        model::served(
            projection_laws::projecting(state, events, updated_at_ms),
            replies,
            store,
        ),
        !(model::ending(projection_laws::projecting(state, events, updated_at_ms), replies)
            is Wait),
    ensures
        model::ending(projection_laws::projecting(state, events, updated_at_ms), replies) is Done
            <==> can_settle(store, state, updated_at_ms),
{
    let fits = stages::anything();
    let stage = projection_laws::projecting(state, events, updated_at_ms);
    let game = ids::id_text_of(state.metadata.id);
    let before = (state.revision - events.len()) as u64;
    let delete = Op::delete("move_history"@).where_text("game_id"@, game);
    let next = telling(state, before, events, updated_at_ms, 0);
    let rest = |rows: Seq<Row>, trace: Trace| next(trace);
    assert forall|trace: Trace| #[trigger] stage(trace) == script::query(
        trace,
        delete,
        rest,
    ) by {}
    stages::whole_is_underway(stage, replies, store, fits);
    let rows = stages::asks_store(stage, delete, rest, replies, 0, store, fits);
    let second: Workflow<(), ProjectionError> = |trace: Trace| rest(rows, trace);
    assert(second =~= next);
    let cleared = model::executed(store, delete).0;
    telling_ends(state, before, events, updated_at_ms, 0, replies, 1, cleared);
    projection_laws::tables_differ();
    assert(cleared.rows("game_players"@) == store.rows("game_players"@));
    assert(cleared.rows("game_scores"@) == store.rows("game_scores"@));
}

/// What could be settled can be settled again.
proof fn settled_again(store: Store, once: Store, state: GameState, updated_at_ms: i64)
    requires
        can_settle(store, state, updated_at_ms),
        once.rows("game_players"@) == store.rows("game_players"@),
        once.rows("game_scores"@) == model::left(
            store.rows("game_scores"@),
            projection_laws::of_game(ids::id_text_of(state.metadata.id)),
        ) + projection_laws::final_scores(store.rows("game_players"@), state, updated_at_ms),
    ensures
        can_settle(once, state, updated_at_ms),
{
    let game = ids::id_text_of(state.metadata.id);
    let filters = projection_laws::of_game(game);
    let seats = store.rows("game_players"@);
    let scores = projection_laws::final_scores(seats, state, updated_at_ms);
    let others = model::left(store.rows("game_scores"@), filters);
    assert forall|i: int| 0 <= i < scores.len() implies model::meets_all(
        #[trigger] scores[i],
        filters,
    ) by {
        projection_laws::score_is_of_the_game(seats, state, state.players@[i], updated_at_ms);
    }
    projection_laws::left_without(others, scores, filters);
    projection_laws::left_again(store.rows("game_scores"@), filters);
}

/// A game's projections that were rebuilt once can be rebuilt again.
pub proof fn rebuilds_succeed_again(
    state: GameState,
    events: Seq<&GameEvent>,
    updated_at_ms: i64,
    replies: Seq<Reply>,
    store: Store,
    later_replies: Seq<Reply>,
)
    requires
        model::served(
            projection_laws::projecting(state, events, updated_at_ms),
            replies,
            store,
        ),
        model::ending(projection_laws::projecting(state, events, updated_at_ms), replies) is Done,
        model::served(
            projection_laws::projecting(state, events, updated_at_ms),
            later_replies,
            model::store_after(
                projection_laws::projecting(state, events, updated_at_ms),
                replies,
                store,
            ),
        ),
        !(model::ending(
            projection_laws::projecting(state, events, updated_at_ms),
            later_replies,
        ) is Wait),
    ensures
        model::ending(
            projection_laws::projecting(state, events, updated_at_ms),
            later_replies,
        ) is Done,
{
    let workflow = projection_laws::projecting(state, events, updated_at_ms);
    let once = model::store_after(workflow, replies, store);
    projection_laws::rebuilds_project_the_game(state, events, updated_at_ms, replies, store);
    projection_laws::tables_differ();
    assert(once.rows("game_players"@) == store.rows("game_players"@));
    rebuilds_succeed(state, events, updated_at_ms, replies, store);
    settled_again(store, once, state, updated_at_ms);
    rebuilds_succeed(state, events, updated_at_ms, later_replies, once);
}

/// Reading the revision up to which a game is projected.
pub open spec fn reading_revision(game_id: GameId) -> Workflow<Option<u64>, ProjectionError> {
    |trace: Trace| projections::projected_revision_run(trace, game_id)
}

/// After a rebuild a game is projected up to the revision of its state.
pub proof fn rebuilt_revisions_are_read(
    state: GameState,
    events: Seq<&GameEvent>,
    updated_at_ms: i64,
    replies: Seq<Reply>,
    store: Store,
    later_replies: Seq<Reply>,
)
    requires
        model::served(
            projection_laws::projecting(state, events, updated_at_ms),
            replies,
            store,
        ),
        model::ending(projection_laws::projecting(state, events, updated_at_ms), replies) is Done,
        model::served(
            reading_revision(state.metadata.id),
            later_replies,
            model::store_after(
                projection_laws::projecting(state, events, updated_at_ms),
                replies,
                store,
            ),
        ),
        !(model::ending(reading_revision(state.metadata.id), later_replies) is Wait),
    ensures
        model::ending(reading_revision(state.metadata.id), later_replies) == Outcome::<
            Option<u64>,
            ProjectionError,
        >::Done(Some(state.revision)),
{
    let fits = stages::anything();
    let workflow = projection_laws::projecting(state, events, updated_at_ms);
    let once = model::store_after(workflow, replies, store);
    let game = ids::id_text_of(state.metadata.id);
    let upsert = projections::checkpoint_op(game, state.revision, updated_at_ms);
    projection_laws::rebuilds_project_the_game(state, events, updated_at_ms, replies, store);
    reveal_strlit("projection_id");
    reveal_strlit("game_id");
    reveal_strlit("revision");
    reveal_strlit("updated_at_ms");
    assert("projection_id"@.len() == 13 && "projection_id"@[0] == 'p');
    assert("game_id"@.len() == 7);
    assert("revision"@.len() == 8);
    assert("updated_at_ms"@.len() == 13 && "updated_at_ms"@[0] == 'u');
    assert(upsert.values.len() == 4);
    model::upserted_rows_hold(store, upsert, 0, 2);
    assert(model::executed(store, upsert).0.rows("projection_checkpoints"@)
        == projection_laws::upserted(store.rows("projection_checkpoints"@), upsert));
    let stage = reading_revision(state.metadata.id);
    let select = Op::select("projection_checkpoints"@).where_text(
        "projection_id"@,
        projections::checkpoint_id(game),
    );
    assert(select.filters =~= upsert.filters);
    let rest = |rows: Seq<Row>, trace: Trace|
        if rows.len() == 0 {
            script::done(trace, None)
        } else {
            match store::unsigned_of(rows[0].integer_at("revision"@)) {
                Some(revision) => script::done(trace, Some(revision)),
                None => script::fail(trace, ProjectionError::Revision),
            }
        };
    assert forall|trace: Trace| #[trigger] stage(trace) == script::query(
        trace,
        select,
        rest,
    ) by {}
    stages::whole_is_underway(stage, later_replies, once, fits);
    let rows = stages::asks_store(stage, select, rest, later_replies, 0, once, fits);
    let hits = model::found(once.rows("projection_checkpoints"@), upsert.filters);
    assert(model::executed(once, select).1 == hits);
    assert(model::shows(rows[0], hits[0]));
    model::shown_values(rows[0], hits[0], "revision"@);
}

/// Reading the history of a game.
pub open spec fn reading_history(game_id: GameId) -> Workflow<
    Seq<HistoryView>,
    ProjectionError,
> {
    |trace: Trace| projections::game_history_run(trace, game_id)
}

/// What the history says of an event.
pub open spec fn told(
    seats: Seq<Record>,
    game: Seq<char>,
    revision: u64,
    event: GameEvent,
    updated_at_ms: i64,
) -> HistoryView {
    HistoryView {
        revision,
        player_user_id: projection_laws::user_in(seats, game, projections::history_of(event).0),
        event_kind: projections::history_of(event).1,
        score_delta: projections::history_of(event).2,
        created_at_ms: updated_at_ms,
    }
}

/// A row of the history is read as what it says.
proof fn history_is_told(
    seats: Seq<Record>,
    game: Seq<char>,
    revision: u64,
    event: GameEvent,
    updated_at_ms: i64,
    row: Row,
)
    requires
        revision <= i64::MAX,
        model::shows(
            row,
            projection_laws::history_record(seats, game, revision as int, event, updated_at_ms),
        ),
    ensures
        projections::history_row(row) == Some(told(seats, game, revision, event, updated_at_ms)),
{
    let record = projection_laws::history_record(
        seats,
        game,
        revision as int,
        event,
        updated_at_ms,
    );
    let user = projection_laws::user_in(seats, game, projections::history_of(event).0);
    let values = projections::insert_move_op(game, revision, user, event, updated_at_ms).values;
    history_columns_differ();
    assert(values.len() == 7);
    model::assigned_sets(Map::empty(), values, 2);
    model::assigned_sets(Map::empty(), values, 3);
    model::assigned_sets(Map::empty(), values, 4);
    model::assigned_sets(Map::empty(), values, 5);
    model::assigned_sets(Map::empty(), values, 6);
    model::shown_values(row, record, "revision"@);
    model::shown_values(row, record, "player_user_id"@);
    model::shown_values(row, record, "event_kind"@);
    model::shown_values(row, record, "score_delta"@);
    model::shown_values(row, record, "created_at_ms"@);
}

/// The columns of the history differ.
proof fn history_columns_differ()
    ensures
        "revision"@ != "player_user_id"@,
        "revision"@ != "event_kind"@,
        "revision"@ != "score_delta"@,
        "revision"@ != "created_at_ms"@,
        "player_user_id"@ != "event_kind"@,
        "player_user_id"@ != "score_delta"@,
        "player_user_id"@ != "created_at_ms"@,
        "event_kind"@ != "score_delta"@,
        "event_kind"@ != "created_at_ms"@,
        "score_delta"@ != "created_at_ms"@,
{
    reveal_strlit("revision");
    reveal_strlit("player_user_id");
    reveal_strlit("event_kind");
    reveal_strlit("score_delta");
    reveal_strlit("created_at_ms");
    assert("revision"@.len() == 8);
    assert("player_user_id"@.len() == 14);
    assert("event_kind"@.len() == 10);
    assert("score_delta"@.len() == 11);
    assert("created_at_ms"@.len() == 13);
}

/// After a rebuild the history of a game tells its events, one a revision up to that of its state.
pub proof fn rebuilt_histories_are_read(
    state: GameState,
    events: Seq<&GameEvent>,
    updated_at_ms: i64,
    replies: Seq<Reply>,
    store: Store,
    later_replies: Seq<Reply>,
)
    requires
        model::served(
            projection_laws::projecting(state, events, updated_at_ms),
            replies,
            store,
        ),
        model::ending(projection_laws::projecting(state, events, updated_at_ms), replies) is Done,
        model::served(
            reading_history(state.metadata.id),
            later_replies,
            model::store_after(
                projection_laws::projecting(state, events, updated_at_ms),
                replies,
                store,
            ),
        ),
        !(model::ending(reading_history(state.metadata.id), later_replies) is Wait),
    ensures
        model::ending(reading_history(state.metadata.id), later_replies) == Outcome::<
            Seq<HistoryView>,
            ProjectionError,
        >::Done(
            Seq::new(
                events.len(),
                |i: int|
                    told(
                        store.rows("game_players"@),
                        ids::id_text_of(state.metadata.id),
                        (state.revision - events.len() + i + 1) as u64,
                        *events[i],
                        updated_at_ms,
                    ),
            ),
        ),
{
    let fits = stages::anything();
    let workflow = projection_laws::projecting(state, events, updated_at_ms);
    let once = model::store_after(workflow, replies, store);
    let game = ids::id_text_of(state.metadata.id);
    let seats = store.rows("game_players"@);
    let before = (state.revision - events.len()) as u64;
    projection_laws::rebuilds_project_the_game(state, events, updated_at_ms, replies, store);
    let filters = projection_laws::of_game(game);
    let others = model::left(store.rows("move_history"@), filters);
    let history = projection_laws::history_records(
        seats,
        game,
        before,
        events,
        updated_at_ms,
        0,
    );
    assert forall|i: int| 0 <= i < history.len() implies model::meets_all(
        #[trigger] history[i],
        filters,
    ) by {
        projection_laws::history_is_of_the_game(
            seats,
            game,
            before + i + 1,
            *events[i],
            updated_at_ms,
        );
    }
    model::left_rows(store.rows("move_history"@), filters);
    model::found_rows(others, filters);
    model::found_in_both(others, history, filters);
    model::all_found(history, filters);
    if model::found(others, filters).len() > 0 {
        let i = choose|i: int| 0 <= i < others.len() && model::meets_all(
            #[trigger] others[i],
            filters,
        );
        assert(!model::meets_all(others[i], filters));
    }
    assert(model::found(others, filters) + history =~= history);
    let precedes = |left: Record, right: Record|
        model::sorts_before(left, right, "revision"@, Direction::Ascending);
    assert forall|i: int, j: int| 0 <= i < j < history.len() implies !precedes(
        #[trigger] history[j],
        #[trigger] history[i],
    ) by {
        revision_is_held(seats, game, (before + i + 1) as u64, *events[i], updated_at_ms);
        revision_is_held(seats, game, (before + j + 1) as u64, *events[j], updated_at_ms);
    }
    order::arranged_in_place(history, precedes);
    let stage = reading_history(state.metadata.id);
    let select = Op::select("move_history"@).where_text("game_id"@, game).sort(
        "revision"@,
        Direction::Ascending,
    );
    assert(select.filters =~= filters);
    let rest = |rows: Seq<Row>, trace: Trace|
        if projections::history_well_formed(rows) {
            script::done(
                trace,
                Seq::new(rows.len(), |i: int| projections::history_row(rows[i])->0),
            )
        } else {
            script::fail(trace, ProjectionError::Malformed)
        };
    assert forall|trace: Trace| #[trigger] stage(trace) == script::query(
        trace,
        select,
        rest,
    ) by {}
    stages::whole_is_underway(stage, later_replies, once, fits);
    let rows = stages::asks_store(stage, select, rest, later_replies, 0, once, fits);
    assert(model::executed(once, select).1 == history);
    assert forall|i: int| 0 <= i < rows.len() implies projections::history_row(
        #[trigger] rows[i],
    ) == Some(told(seats, game, (before + i + 1) as u64, *events[i], updated_at_ms)) by {
        assert(model::shows(rows[i], history[i]));
        history_is_told(
            seats,
            game,
            (before + i + 1) as u64,
            *events[i],
            updated_at_ms,
            rows[i],
        );
    }
    assert(projections::history_well_formed(rows));
    assert(Seq::new(rows.len(), |i: int| projections::history_row(rows[i])->0) =~= Seq::new(
        events.len(),
        |i: int|
            told(
                seats,
                game,
                (state.revision - events.len() + i + 1) as u64,
                *events[i],
                updated_at_ms,
            ),
    ));
}

/// A row of the history holds its revision.
proof fn revision_is_held(
    seats: Seq<Record>,
    game: Seq<char>,
    revision: u64,
    event: GameEvent,
    updated_at_ms: i64,
)
    ensures
        model::datum_in(
            projection_laws::history_record(seats, game, revision as int, event, updated_at_ms),
            "revision"@,
        ) == Datum::Integer(revision as int),
{
    let user = projection_laws::user_in(seats, game, projections::history_of(event).0);
    let values = projections::insert_move_op(game, revision, user, event, updated_at_ms).values;
    history_columns_differ();
    assert(values.len() == 7);
    model::assigned_sets(Map::empty(), values, 2);
}

} // verus!
