//! What a rebuild of a game's projections leaves behind, and that rebuilding again changes nothing.
use crate::game::{GameEvent, GameState, GameStatus, PlayerId};
use crate::ids;
use crate::model::{self, Record, Store, Workflow};
use crate::projections::{self, ProjectionError, TotalsView};
use crate::script::{self, Reply, Trace};
use crate::stages;
use crate::steady;
use crate::store::{self, Datum, Op, Relation, Row};
use crate::totals;
use vstd::prelude::*;

verus! {

/// Whether a store differs from another in one table at most.
pub open spec fn differs_in(before: Store, after: Store, table: Seq<char>) -> bool {
    forall|other: Seq<char>|
        other != table ==> #[trigger] after.rows(other) == before.rows(other)
}

/// The names of the tables differ.
pub proof fn tables_differ()
    ensures
        "move_history"@ != "game_players"@,
        "move_history"@ != "game_summaries"@,
        "move_history"@ != "game_scores"@,
        "move_history"@ != "user_score_totals"@,
        "move_history"@ != "projection_checkpoints"@,
        "game_summaries"@ != "game_players"@,
        "game_summaries"@ != "game_scores"@,
        "game_summaries"@ != "user_score_totals"@,
        "game_summaries"@ != "projection_checkpoints"@,
        "game_scores"@ != "game_players"@,
        "game_scores"@ != "user_score_totals"@,
        "game_scores"@ != "projection_checkpoints"@,
        "user_score_totals"@ != "game_players"@,
        "user_score_totals"@ != "projection_checkpoints"@,
        "projection_checkpoints"@ != "game_players"@,
{
    reveal_strlit("move_history");
    reveal_strlit("game_players");
    reveal_strlit("game_summaries");
    reveal_strlit("game_scores");
    reveal_strlit("user_score_totals");
    reveal_strlit("projection_checkpoints");
    assert("move_history"@.len() == 12 && "move_history"@[0] == 'm');
    assert("game_players"@.len() == 12 && "game_players"@[0] == 'g');
    assert("game_summaries"@.len() == 14);
    assert("game_scores"@.len() == 11);
    assert("user_score_totals"@.len() == 17);
    assert("projection_checkpoints"@.len() == 22);
}

/// The request for the user of a seat.
pub open spec fn seat_op(game: Seq<char>, player: PlayerId) -> Op {
    Op::select("game_players"@).where_text("game_id"@, game).where_text(
        "game_player_id"@,
        ids::id_text_of(player),
    )
}

/// The user who holds a seat among stored seats.
pub open spec fn user_in(seats: Seq<Record>, game: Seq<char>, player: Option<PlayerId>) -> Option<
    Seq<char>,
> {
    match player {
        None => None,
        Some(player) => {
            let hits = model::found(seats, seat_op(game, player).filters);
            if hits.len() > 0 {
                match model::datum_in(hits[0], "user_id"@) {
                    Datum::Text(user) => Some(user),
                    _ => None,
                }
            } else {
                None
            }
        },
    }
}

pub open spec fn finding_user(game: Seq<char>, player: Option<PlayerId>) -> Workflow<
    Option<Seq<char>>,
    ProjectionError,
> {
    |trace: Trace| projections::user_for_option_run(trace, game, player)
}

proof fn finding_is_in_order(
    replies: Seq<Reply>,
    from: int,
    game: Seq<char>,
    player: Option<PlayerId>,
)
    requires
        0 <= from,
    ensures
        stages::in_order(finding_user(game, player), replies, from),
        from <= finding_user(game, player)(Trace { replies, at: from }).trace.at <= from + 1,
{
    let stage = finding_user(game, player);
    assert forall|count: int| 0 <= count <= replies.len() implies steady::steady(
        stage(Trace { replies, at: from }),
        #[trigger] stages::stage_run(stage, replies, from, count),
        replies,
        from,
        count,
    ) by {
        if from < count {
            assert(replies.take(count)[from] == replies[from]);
        }
    }
}

proof fn user_is_found(
    game: Seq<char>,
    player: Option<PlayerId>,
    replies: Seq<Reply>,
    from: int,
    store: Store,
    user: Option<Seq<char>>,
    to: int,
    after: Store,
)
    requires
        stages::played(finding_user(game, player), replies, from, store, user, to, after),
    ensures
        after == store,
        user == user_in(store.rows("game_players"@), game, player),
{
    let stage = finding_user(game, player);
    match player {
        None => {
            stages::ended(stage, replies, from, store, user, to, after, None);
        },
        Some(seat) => {
            let op = seat_op(game, seat);
            let rest = |rows: Seq<Row>, trace: Trace|
                script::done::<Option<Seq<char>>, ProjectionError>(
                    trace,
                    store::first_text_of(rows, "user_id"@),
                );
            assert(stage(Trace { replies, at: from }) == projections::user_for_player_run(
                Trace { replies, at: from },
                game,
                seat,
            ));
            let rows = stages::queried(
                stage,
                op,
                rest,
                replies,
                from,
                store,
                user,
                to,
                after,
            );
            let next: Workflow<Option<Seq<char>>, ProjectionError> = |trace: Trace|
                rest(rows, trace);
            stages::ended(
                next,
                replies,
                from + 1,
                model::executed(store, op).0,
                user,
                to,
                after,
                store::first_text_of(rows, "user_id"@),
            );
            let hits = model::found(store.rows("game_players"@), op.filters);
            if hits.len() > 0 {
                model::shown_values(rows[0], hits[0], "user_id"@);
            }
        },
    }
}

/// The history row of an event.
pub open spec fn history_record(
    seats: Seq<Record>,
    game: Seq<char>,
    revision: int,
    event: GameEvent,
    updated_at_ms: i64,
) -> Record {
    model::assigned(
        Map::empty(),
        projections::insert_move_op(
            game,
            revision as u64,
            user_in(seats, game, projections::history_of(event).0),
            event,
            updated_at_ms,
        ).values,
    )
}

/// The history rows of the events from `index` on.
pub open spec fn history_records(
    seats: Seq<Record>,
    game: Seq<char>,
    before: u64,
    events: Seq<&GameEvent>,
    updated_at_ms: i64,
    index: int,
) -> Seq<Record> {
    Seq::new(
        (events.len() - index) as nat,
        |i: int|
            history_record(seats, game, before + index + i + 1, *events[index + i], updated_at_ms),
    )
}

pub open spec fn writing_history(
    game: Seq<char>,
    before: u64,
    events: Seq<&GameEvent>,
    updated_at_ms: i64,
    index: int,
) -> Workflow<(), ProjectionError> {
    |trace: Trace|
        projections::write_history_run(trace, game, before, events, updated_at_ms, index)
}

proof fn history_is_written(
    game: Seq<char>,
    before: u64,
    events: Seq<&GameEvent>,
    updated_at_ms: i64,
    index: int,
    replies: Seq<Reply>,
    from: int,
    store: Store,
    to: int,
    after: Store,
)
    requires
        0 <= index <= events.len(),
        stages::played(
            writing_history(game, before, events, updated_at_ms, index),
            replies,
            from,
            store,
            (),
            to,
            after,
        ),
    ensures
        differs_in(store, after, "move_history"@),
        after.rows("move_history"@) == store.rows("move_history"@) + history_records(
            store.rows("game_players"@),
            game,
            before,
            events,
            updated_at_ms,
            index,
        ),
    decreases events.len() - index,
{
    let stage = writing_history(game, before, events, updated_at_ms, index);
    let seats = store.rows("game_players"@);
    let all = history_records(seats, game, before, events, updated_at_ms, index);
    if index == events.len() {
        stages::ended(stage, replies, from, store, (), to, after, ());
        assert(store.rows("move_history"@) + all =~= store.rows("move_history"@));
    } else {
        tables_differ();
        let player = projections::history_of(*events[index]).0;
        let revision = before + index + 1;
        let first = finding_user(game, player);
        let next = |trace: Trace|
            projections::write_history_run(
                trace,
                game,
                before,
                events,
                updated_at_ms,
                index + 1,
            );
        let rest = |user: Option<Seq<char>>, trace: Trace|
            if revision > i64::MAX {
                script::fail::<(), ProjectionError>(trace, ProjectionError::Revision)
            } else {
                script::perform(
                    trace,
                    projections::insert_move_op(
                        game,
                        revision as u64,
                        user,
                        *events[index],
                        updated_at_ms,
                    ),
                    next,
                )
            };
        assert forall|trace: Trace| #[trigger] stage(trace) == script::chain(
            first(trace),
            rest,
        ) by {
            let user = first(trace);
            let inner = |rows: Seq<Row>, trace: Trace| next(trace);
        }
        finding_is_in_order(replies, from, game, player);
        let mid = first(Trace { replies, at: from }).trace.at;
        steady::history_is_steady(
            replies,
            mid + 1,
            replies.len() as int,
            game,
            before,
            events,
            updated_at_ms,
            index + 1,
        );
        let (user, mid, between) = stages::chained(
            stage,
            first,
            rest,
            replies,
            from,
            store,
            (),
            to,
            after,
        );
        user_is_found(game, player, replies, from, store, user, mid, between);
        let second: Workflow<(), ProjectionError> = |trace: Trace| rest(user, trace);
        let op = projections::insert_move_op(
            game,
            revision as u64,
            user,
            *events[index],
            updated_at_ms,
        );
        let tail = |rows: Seq<Row>, trace: Trace| next(trace);
        assert(second(Trace { replies, at: mid }).outcome is Done);
        assert(revision <= i64::MAX);
        let rows = stages::queried(second, op, tail, replies, mid, store, (), to, after);
        let inserted = model::executed(store, op).0;
        stages::same_stage(
            |trace: Trace| tail(rows, trace),
            writing_history(game, before, events, updated_at_ms, index + 1),
            replies,
            mid + 1,
            inserted,
            (),
            to,
            after,
        );
        history_is_written(
            game,
            before,
            events,
            updated_at_ms,
            index + 1,
            replies,
            mid + 1,
            inserted,
            to,
            after,
        );
        let more = history_records(seats, game, before, events, updated_at_ms, index + 1);
        let record = history_record(seats, game, revision, *events[index], updated_at_ms);
        assert(all =~= seq![record] + more);
        assert(store.rows("move_history"@).push(record) + more =~= store.rows("move_history"@)
            + all);
        assert(inserted.rows("game_players"@) == seats);
    }
}

/// The rows of a table after an upsert.
pub open spec fn upserted(rows: Seq<Record>, op: Op) -> Seq<Record> {
    if model::found(rows, op.filters).len() == 0 {
        rows.push(model::assigned(Map::empty(), op.values))
    } else {
        model::updated(rows, op.filters, op.values)
    }
}

/// The upsert of a game's summary.
pub open spec fn summary_of(
    seats: Seq<Record>,
    state: GameState,
    events: Seq<&GameEvent>,
    updated_at_ms: i64,
) -> Op {
    let game = ids::id_text_of(state.metadata.id);
    projections::summary_op(
        game,
        state,
        events,
        user_in(seats, game, Some(state.active_player)),
        user_in(seats, game, state.winner),
        updated_at_ms,
    )
}

pub open spec fn writing_summary(
    state: GameState,
    events: Seq<&GameEvent>,
    updated_at_ms: i64,
) -> Workflow<(), ProjectionError> {
    |trace: Trace|
        projections::write_summary_run(
            trace,
            ids::id_text_of(state.metadata.id),
            state,
            events,
            updated_at_ms,
        )
}

proof fn summary_is_written(
    state: GameState,
    events: Seq<&GameEvent>,
    updated_at_ms: i64,
    replies: Seq<Reply>,
    from: int,
    store: Store,
    to: int,
    after: Store,
)
    requires
        stages::played(
            writing_summary(state, events, updated_at_ms),
            replies,
            from,
            store,
            (),
            to,
            after,
        ),
    ensures
        state.revision <= i64::MAX,
        differs_in(store, after, "game_summaries"@),
        after.rows("game_summaries"@) == upserted(
            store.rows("game_summaries"@),
            summary_of(store.rows("game_players"@), state, events, updated_at_ms),
        ),
{
    let game = ids::id_text_of(state.metadata.id);
    let stage = writing_summary(state, events, updated_at_ms);
    let first = finding_user(game, Some(state.active_player));
    let second = finding_user(game, state.winner);
    let last = |active: Option<Seq<char>>, winner: Option<Seq<char>>, trace: Trace|
        script::perform::<(), ProjectionError>(
            trace,
            projections::summary_op(game, state, events, active, winner, updated_at_ms),
            |trace: Trace| script::done(trace, ()),
        );
    let rest = |active: Option<Seq<char>>, trace: Trace|
        if state.revision > i64::MAX {
            script::fail::<(), ProjectionError>(trace, ProjectionError::Revision)
        } else {
            script::chain(
                second(trace),
                |winner: Option<Seq<char>>, trace: Trace| last(active, winner, trace),
            )
        };
    assert forall|trace: Trace| #[trigger] stage(trace) == script::chain(first(trace), rest) by {}
    finding_is_in_order(replies, from, game, Some(state.active_player));
    let start = first(Trace { replies, at: from }).trace.at;
    finding_is_in_order(replies, start, game, state.winner);
    let (active, mid, between) = stages::chained(
        stage,
        first,
        rest,
        replies,
        from,
        store,
        (),
        to,
        after,
    );
    user_is_found(game, Some(state.active_player), replies, from, store, active, mid, between);
    let middle: Workflow<(), ProjectionError> = |trace: Trace| rest(active, trace);
    assert(middle(Trace { replies, at: mid }).outcome is Done);
    let ending = |winner: Option<Seq<char>>, trace: Trace| last(active, winner, trace);
    let (winner, end, found) = stages::chained(
        middle,
        second,
        ending,
        replies,
        mid,
        store,
        (),
        to,
        after,
    );
    user_is_found(game, state.winner, replies, mid, store, winner, end, found);
    let op = projections::summary_op(game, state, events, active, winner, updated_at_ms);
    let tail = |rows: Seq<Row>, trace: Trace| script::done::<(), ProjectionError>(trace, ());
    let writing: Workflow<(), ProjectionError> = |trace: Trace| ending(winner, trace);
    let rows = stages::queried(writing, op, tail, replies, end, store, (), to, after);
    stages::ended(
        |trace: Trace| tail(rows, trace),
        replies,
        end + 1,
        model::executed(store, op).0,
        (),
        to,
        after,
        (),
    );
}

/// The score row of a player.
pub open spec fn score_record(
    seats: Seq<Record>,
    state: GameState,
    player: PlayerId,
    updated_at_ms: i64,
) -> Record {
    let game = ids::id_text_of(state.metadata.id);
    model::assigned(
        Map::empty(),
        projections::insert_score_op(
            game,
            user_in(seats, game, Some(player))->0,
            state,
            player,
            updated_at_ms,
        ).values,
    )
}

/// The score rows of the players from `index` on.
pub open spec fn score_records(
    seats: Seq<Record>,
    state: GameState,
    updated_at_ms: i64,
    index: int,
) -> Seq<Record> {
    Seq::new(
        (state.players@.len() - index) as nat,
        |i: int| score_record(seats, state, state.players@[index + i], updated_at_ms),
    )
}

/// Whether every player from `index` on has a seat that names a user.
pub open spec fn all_seated(seats: Seq<Record>, state: GameState, index: int) -> bool {
    forall|i: int|
        index <= i < state.players@.len() ==> user_in(
            seats,
            ids::id_text_of(state.metadata.id),
            Some(#[trigger] state.players@[i]),
        ) is Some
}

pub open spec fn writing_scores(state: GameState, updated_at_ms: i64, index: int) -> Workflow<
    (),
    ProjectionError,
> {
    |trace: Trace|
        projections::write_scores_run(
            trace,
            ids::id_text_of(state.metadata.id),
            state,
            updated_at_ms,
            index,
        )
}

proof fn scores_are_written(
    state: GameState,
    updated_at_ms: i64,
    index: int,
    replies: Seq<Reply>,
    from: int,
    store: Store,
    to: int,
    after: Store,
)
    requires
        0 <= index <= state.players@.len(),
        stages::played(
            writing_scores(state, updated_at_ms, index),
            replies,
            from,
            store,
            (),
            to,
            after,
        ),
    ensures
        all_seated(store.rows("game_players"@), state, index),
        differs_in(store, after, "game_scores"@),
        after.rows("game_scores"@) == store.rows("game_scores"@) + score_records(
            store.rows("game_players"@),
            state,
            updated_at_ms,
            index,
        ),
    decreases state.players@.len() - index,
{
    let game = ids::id_text_of(state.metadata.id);
    let stage = writing_scores(state, updated_at_ms, index);
    let seats = store.rows("game_players"@);
    let all = score_records(seats, state, updated_at_ms, index);
    if index == state.players@.len() {
        stages::ended(stage, replies, from, store, (), to, after, ());
        assert(store.rows("game_scores"@) + all =~= store.rows("game_scores"@));
    } else {
        tables_differ();
        let player = state.players@[index];
        let first = finding_user(game, Some(player));
        let next = |trace: Trace|
            projections::write_scores_run(trace, game, state, updated_at_ms, index + 1);
        let rest = |user: Option<Seq<char>>, trace: Trace|
            match user {
                None => script::fail::<(), ProjectionError>(trace, ProjectionError::Malformed),
                Some(user) => script::perform(
                    trace,
                    projections::insert_score_op(game, user, state, player, updated_at_ms),
                    next,
                ),
            };
        assert forall|trace: Trace| #[trigger] stage(trace) == script::chain(
            first(trace),
            rest,
        ) by {
            let inner = |rows: Seq<Row>, trace: Trace| next(trace);
        }
        finding_is_in_order(replies, from, game, Some(player));
        let start = first(Trace { replies, at: from }).trace.at;
        steady::scores_are_steady(
            replies,
            start + 1,
            replies.len() as int,
            game,
            state,
            updated_at_ms,
            index + 1,
        );
        let (user, mid, between) = stages::chained(
            stage,
            first,
            rest,
            replies,
            from,
            store,
            (),
            to,
            after,
        );
        user_is_found(game, Some(player), replies, from, store, user, mid, between);
        let second: Workflow<(), ProjectionError> = |trace: Trace| rest(user, trace);
        assert(second(Trace { replies, at: mid }).outcome is Done);
        let op = projections::insert_score_op(game, user->0, state, player, updated_at_ms);
        let tail = |rows: Seq<Row>, trace: Trace| next(trace);
        let rows = stages::queried(second, op, tail, replies, mid, store, (), to, after);
        let inserted = model::executed(store, op).0;
        stages::same_stage(
            |trace: Trace| tail(rows, trace),
            writing_scores(state, updated_at_ms, index + 1),
            replies,
            mid + 1,
            inserted,
            (),
            to,
            after,
        );
        scores_are_written(
            state,
            updated_at_ms,
            index + 1,
            replies,
            mid + 1,
            inserted,
            to,
            after,
        );
        let more = score_records(seats, state, updated_at_ms, index + 1);
        let record = score_record(seats, state, player, updated_at_ms);
        assert(all =~= seq![record] + more);
        assert(store.rows("game_scores"@).push(record) + more =~= store.rows("game_scores"@)
            + all);
        assert(inserted.rows("game_players"@) == seats);
    }
}

pub open spec fn writing_totals(
    totals: Seq<TotalsView>,
    updated_at_ms: i64,
    index: int,
) -> Workflow<(), ProjectionError> {
    |trace: Trace| projections::write_totals_run(trace, totals, updated_at_ms, index)
}

proof fn totals_are_written(
    listed: Seq<TotalsView>,
    updated_at_ms: i64,
    index: int,
    replies: Seq<Reply>,
    from: int,
    store: Store,
    to: int,
    after: Store,
)
    requires
        0 <= index <= listed.len(),
        stages::played(
            writing_totals(listed, updated_at_ms, index),
            replies,
            from,
            store,
            (),
            to,
            after,
        ),
    ensures
        differs_in(store, after, "user_score_totals"@),
        after.rows("user_score_totals"@) == store.rows("user_score_totals"@)
            + totals::total_records(listed, updated_at_ms).skip(index),
    decreases listed.len() - index,
{
    let stage = writing_totals(listed, updated_at_ms, index);
    let all = totals::total_records(listed, updated_at_ms);
    if index == listed.len() {
        stages::ended(stage, replies, from, store, (), to, after, ());
        assert(store.rows("user_score_totals"@) + all.skip(index) =~= store.rows(
            "user_score_totals"@,
        ));
    } else {
        let op = projections::insert_totals_op(listed[index], updated_at_ms);
        let next = |trace: Trace|
            projections::write_totals_run(trace, listed, updated_at_ms, index + 1);
        let tail = |rows: Seq<Row>, trace: Trace| next(trace);
        assert(stage(Trace { replies, at: from }).outcome is Done);
        assert(projections::storable(listed[index]));
        assert forall|trace: Trace| #[trigger] stage(trace) == script::query(trace, op, tail) by {}
        steady::totals_are_steady(
            replies,
            from + 1,
            replies.len() as int,
            listed,
            updated_at_ms,
            index + 1,
        );
        let rows = stages::queried(stage, op, tail, replies, from, store, (), to, after);
        let inserted = model::executed(store, op).0;
        stages::same_stage(
            |trace: Trace| tail(rows, trace),
            writing_totals(listed, updated_at_ms, index + 1),
            replies,
            from + 1,
            inserted,
            (),
            to,
            after,
        );
        totals_are_written(
            listed,
            updated_at_ms,
            index + 1,
            replies,
            from + 1,
            inserted,
            to,
            after,
        );
        assert(all.skip(index) =~= seq![all[index]] + all.skip(index + 1));
        assert(store.rows("user_score_totals"@).push(all[index]) + all.skip(index + 1)
            =~= store.rows("user_score_totals"@) + all.skip(index));
    }
}

/// Whether totals are what stored scores add up to.
pub open spec fn totals_from(scores: Seq<Record>, listed: Seq<TotalsView>) -> bool {
    exists|rows: Seq<Row>|
        #[trigger] model::all_shown(rows, scores) && projections::tally(rows) == Some(listed)
}

/// Stored scores add up to one list of totals.
pub proof fn one_tally(left: Seq<Row>, right: Seq<Row>, scores: Seq<Record>)
    requires
        model::all_shown(left, scores),
        model::all_shown(right, scores),
    ensures
        projections::tally(left) == projections::tally(right),
    decreases scores.len(),
{
    if scores.len() > 0 {
        let less = scores.drop_last();
        assert forall|i: int| 0 <= i < less.len() implies model::shows(
            #[trigger] left.drop_last()[i],
            less[i],
        ) by {
            assert(model::shows(left[i], scores[i]));
        }
        assert forall|i: int| 0 <= i < less.len() implies model::shows(
            #[trigger] right.drop_last()[i],
            less[i],
        ) by {
            assert(model::shows(right[i], scores[i]));
        }
        one_tally(left.drop_last(), right.drop_last(), less);
        let last = scores.len() - 1;
        assert(model::shows(left[last], scores[last]));
        assert(model::shows(right[last], scores[last]));
        model::shown_values(left[last], scores[last], "user_id"@);
        model::shown_values(right[last], scores[last], "user_id"@);
        model::shown_values(left[last], scores[last], "score"@);
        model::shown_values(right[last], scores[last], "score"@);
        model::shown_values(left[last], scores[last], "outcome"@);
        model::shown_values(right[last], scores[last], "outcome"@);
    }
}

proof fn totals_are_rebuilt(
    updated_at_ms: i64,
    replies: Seq<Reply>,
    from: int,
    store: Store,
    to: int,
    after: Store,
) -> (listed: Seq<TotalsView>)
    requires
        stages::played(
            totals::rebuilding(updated_at_ms),
            replies,
            from,
            store,
            (),
            to,
            after,
        ),
    ensures
        differs_in(store, after, "user_score_totals"@),
        totals_from(store.rows("game_scores"@), listed),
        after.rows("user_score_totals"@) == totals::total_records(listed, updated_at_ms),
{
    tables_differ();
    let stage = totals::rebuilding(updated_at_ms);
    let select = Op::select("game_scores"@);
    let delete = Op::delete("user_score_totals"@);
    let rest = |rows: Seq<Row>, trace: Trace|
        match projections::tally(rows) {
            None => script::fail::<(), ProjectionError>(trace, ProjectionError::Malformed),
            Some(listed) => script::perform(
                trace,
                delete,
                |trace: Trace| projections::write_totals_run(trace, listed, updated_at_ms, 0),
            ),
        };
    assert forall|trace: Trace| #[trigger] stage(trace) == script::query(trace, select, rest) by {}
    steady::rebuilt_totals_are_steady(replies, from, from, updated_at_ms);
    let cut = stages::stage_run(stage, replies, from, from);
    assert(cut.outcome is Wait);
    let rows = stages::queried(stage, select, rest, replies, from, store, (), to, after);
    let listed = projections::tally(rows)->0;
    let second: Workflow<(), ProjectionError> = |trace: Trace| rest(rows, trace);
    assert(second(Trace { replies, at: from + 1 }).outcome is Done);
    let tail = |rows: Seq<Row>, trace: Trace|
        projections::write_totals_run(trace, listed, updated_at_ms, 0);
    steady::totals_are_steady(
        replies,
        from + 2,
        replies.len() as int,
        listed,
        updated_at_ms,
        0,
    );
    let gone = stages::queried(second, delete, tail, replies, from + 1, store, (), to, after);
    let cleared = model::executed(store, delete).0;
    stages::same_stage(
        |trace: Trace| tail(gone, trace),
        writing_totals(listed, updated_at_ms, 0),
        replies,
        from + 2,
        cleared,
        (),
        to,
        after,
    );
    totals_are_written(listed, updated_at_ms, 0, replies, from + 2, cleared, to, after);
    everything_is_found(store.rows("game_scores"@), select.filters);
    totals::nothing_is_left(store.rows("user_score_totals"@), delete.filters);
    let all = totals::total_records(listed, updated_at_ms);
    assert(Seq::<Record>::empty() + all.skip(0) =~= all);
    assert(model::all_shown(rows, store.rows("game_scores"@)));
    listed
}

proof fn everything_is_found(rows: Seq<Record>, filters: Seq<(Seq<char>, Relation, Datum)>)
    requires
        filters.len() == 0,
    ensures
        model::found(rows, filters) == rows,
{
    model::all_found(rows, filters);
}

/// The filter on the rows of a game.
pub open spec fn of_game(game: Seq<char>) -> Seq<(Seq<char>, Relation, Datum)> {
    Op::delete("move_history"@).where_text("game_id"@, game).filters
}

/// The score rows of a game: there are none before it is completed.
pub open spec fn final_scores(seats: Seq<Record>, state: GameState, updated_at_ms: i64) -> Seq<
    Record,
> {
    if state.status == GameStatus::Completed {
        score_records(seats, state, updated_at_ms, 0)
    } else {
        Seq::empty()
    }
}

pub open spec fn rebuilding_scores(state: GameState, updated_at_ms: i64) -> Workflow<
    (),
    ProjectionError,
> {
    |trace: Trace| projections::rebuild_scores_run(trace, state, updated_at_ms)
}

proof fn scores_are_rebuilt(
    state: GameState,
    updated_at_ms: i64,
    replies: Seq<Reply>,
    from: int,
    store: Store,
    to: int,
    after: Store,
) -> (listed: Seq<TotalsView>)
    requires
        stages::played(
            rebuilding_scores(state, updated_at_ms),
            replies,
            from,
            store,
            (),
            to,
            after,
        ),
    ensures
        forall|other: Seq<char>|
            other != "game_scores"@ && other != "user_score_totals"@
                ==> #[trigger] after.rows(other) == store.rows(other),
        state.status == GameStatus::Completed ==> all_seated(
            store.rows("game_players"@),
            state,
            0,
        ),
        after.rows("game_scores"@) == model::left(
            store.rows("game_scores"@),
            of_game(ids::id_text_of(state.metadata.id)),
        ) + final_scores(store.rows("game_players"@), state, updated_at_ms),
        totals_from(after.rows("game_scores"@), listed),
        after.rows("user_score_totals"@) == totals::total_records(listed, updated_at_ms),
{
    tables_differ();
    let game = ids::id_text_of(state.metadata.id);
    let stage = rebuilding_scores(state, updated_at_ms);
    let delete = Op::delete("game_scores"@).where_text("game_id"@, game);
    let first: Workflow<(), ProjectionError> = |trace: Trace|
        if state.status == GameStatus::Completed {
            projections::write_scores_run(trace, game, state, updated_at_ms, 0)
        } else {
            script::done(trace, ())
        };
    let rest = |written: (), trace: Trace| projections::rebuild_totals_run(trace, updated_at_ms);
    let tail = |rows: Seq<Row>, trace: Trace| script::chain(first(trace), rest);
    assert forall|trace: Trace| #[trigger] stage(trace) == script::query(trace, delete, tail) by {
        let inner = |trace: Trace| script::chain(first(trace), rest);
    }
    steady::rebuilt_scores_are_steady(replies, from, from, state, updated_at_ms);
    let cut = stages::stage_run(stage, replies, from, from);
    assert(cut.outcome is Wait);
    let gone = stages::queried(stage, delete, tail, replies, from, store, (), to, after);
    let cleared = model::executed(store, delete).0;
    let second: Workflow<(), ProjectionError> = |trace: Trace| tail(gone, trace);
    assert forall|count: int| 0 <= count <= replies.len() implies steady::steady(
        first(Trace { replies, at: from + 1 }),
        #[trigger] stages::stage_run(first, replies, from + 1, count),
        replies,
        from + 1,
        count,
    ) by {
        steady::scores_are_steady(replies, from + 1, count, game, state, updated_at_ms, 0);
    }
    let start = first(Trace { replies, at: from + 1 }).trace.at;
    steady::scores_are_steady(
        replies,
        from + 1,
        replies.len() as int,
        game,
        state,
        updated_at_ms,
        0,
    );
    steady::rebuilt_totals_are_steady(replies, start, replies.len() as int, updated_at_ms);
    let (written, mid, between) = stages::chained(
        second,
        first,
        rest,
        replies,
        from + 1,
        cleared,
        (),
        to,
        after,
    );
    let left = model::left(store.rows("game_scores"@), of_game(game));
    assert(delete.filters =~= of_game(game));
    if state.status == GameStatus::Completed {
        stages::same_stage(
            first,
            writing_scores(state, updated_at_ms, 0),
            replies,
            from + 1,
            cleared,
            written,
            mid,
            between,
        );
        scores_are_written(state, updated_at_ms, 0, replies, from + 1, cleared, mid, between);
    } else {
        stages::ended(first, replies, from + 1, cleared, written, mid, between, ());
        assert(left + Seq::<Record>::empty() =~= left);
    }
    stages::same_stage(
        |trace: Trace| rest(written, trace),
        totals::rebuilding(updated_at_ms),
        replies,
        mid,
        between,
        (),
        to,
        after,
    );
    totals_are_rebuilt(updated_at_ms, replies, mid, between, to, after)
}

/// Whether `after` is `before` with the projections of one game rebuilt: its history, its summary,
/// its scores and its checkpoint are what its state and events show, the totals are what all scores
/// add up to, and everything else is as it was.
pub open spec fn projected(
    before: Store,
    after: Store,
    state: GameState,
    events: Seq<&GameEvent>,
    updated_at_ms: i64,
) -> bool {
    let game = ids::id_text_of(state.metadata.id);
    let seats = before.rows("game_players"@);
    &&& events.len() <= state.revision <= i64::MAX
    &&& state.status == GameStatus::Completed ==> all_seated(seats, state, 0)
    &&& after.rows("move_history"@) == model::left(before.rows("move_history"@), of_game(game))
        + history_records(
        seats,
        game,
        (state.revision - events.len()) as u64,
        events,
        updated_at_ms,
        0,
    )
    &&& after.rows("game_summaries"@) == upserted(
        before.rows("game_summaries"@),
        summary_of(seats, state, events, updated_at_ms),
    )
    &&& after.rows("game_scores"@) == model::left(before.rows("game_scores"@), of_game(game))
        + final_scores(seats, state, updated_at_ms)
    &&& exists|listed: Seq<TotalsView>|
        #[trigger] totals_from(after.rows("game_scores"@), listed) && after.rows(
            "user_score_totals"@,
        ) == totals::total_records(listed, updated_at_ms)
    &&& after.rows("projection_checkpoints"@) == upserted(
        before.rows("projection_checkpoints"@),
        projections::checkpoint_op(game, state.revision, updated_at_ms),
    )
    &&& forall|other: Seq<char>|
        other != "move_history"@ && other != "game_summaries"@ && other != "game_scores"@ && other
            != "user_score_totals"@ && other != "projection_checkpoints"@
            ==> #[trigger] after.rows(other) == before.rows(other)
}

/// Rebuilding the projections of a game.
pub open spec fn projecting(
    state: GameState,
    events: Seq<&GameEvent>,
    updated_at_ms: i64,
) -> Workflow<(), ProjectionError> {
    |trace: Trace| projections::rebuild_game_run(trace, state, events, updated_at_ms)
}

proof fn rest_is_rebuilt(
    state: GameState,
    events: Seq<&GameEvent>,
    updated_at_ms: i64,
    replies: Seq<Reply>,
    from: int,
    store: Store,
    to: int,
    after: Store,
) -> (listed: Seq<TotalsView>)
    requires
        stages::played(
            |trace: Trace| projections::rebuild_rest_run(trace, state, events, updated_at_ms),
            replies,
            from,
            store,
            (),
            to,
            after,
        ),
    ensures
        state.revision <= i64::MAX,
        state.status == GameStatus::Completed ==> all_seated(
            store.rows("game_players"@),
            state,
            0,
        ),
        after.rows("game_summaries"@) == upserted(
            store.rows("game_summaries"@),
            summary_of(store.rows("game_players"@), state, events, updated_at_ms),
        ),
        after.rows("game_scores"@) == model::left(
            store.rows("game_scores"@),
            of_game(ids::id_text_of(state.metadata.id)),
        ) + final_scores(store.rows("game_players"@), state, updated_at_ms),
        totals_from(after.rows("game_scores"@), listed),
        after.rows("user_score_totals"@) == totals::total_records(listed, updated_at_ms),
        after.rows("projection_checkpoints"@) == upserted(
            store.rows("projection_checkpoints"@),
            projections::checkpoint_op(
                ids::id_text_of(state.metadata.id),
                state.revision,
                updated_at_ms,
            ),
        ),
        forall|other: Seq<char>|
            other != "game_summaries"@ && other != "game_scores"@ && other != "user_score_totals"@
                && other != "projection_checkpoints"@ ==> #[trigger] after.rows(other)
                == store.rows(other),
{
    tables_differ();
    let game = ids::id_text_of(state.metadata.id);
    let count = replies.len() as int;
    let stage: Workflow<(), ProjectionError> = |trace: Trace|
        projections::rebuild_rest_run(trace, state, events, updated_at_ms);
    let first = writing_summary(state, events, updated_at_ms);
    let second = rebuilding_scores(state, updated_at_ms);
    let last = |rebuilt: (), trace: Trace|
        if state.revision > i64::MAX {
            script::fail::<(), ProjectionError>(trace, ProjectionError::Revision)
        } else {
            script::perform(
                trace,
                projections::checkpoint_op(game, state.revision, updated_at_ms),
                |trace: Trace| script::done(trace, ()),
            )
        };
    let rest = |written: (), trace: Trace| script::chain(second(trace), last);
    assert forall|trace: Trace| #[trigger] stage(trace) == script::chain(first(trace), rest) by {}
    assert forall|cut: int| 0 <= cut <= replies.len() implies steady::steady(
        first(Trace { replies, at: from }),
        #[trigger] stages::stage_run(first, replies, from, cut),
        replies,
        from,
        cut,
    ) by {
        steady::summary_is_steady(replies, from, cut, game, state, events, updated_at_ms);
    }
    assert(replies.take(count) =~= replies);
    steady::summary_is_steady(replies, from, count, game, state, events, updated_at_ms);
    let start = first(Trace { replies, at: from }).trace.at;
    steady::rebuilt_scores_are_steady(replies, start, count, state, updated_at_ms);
    let (written, mid, between) = stages::chained(
        stage,
        first,
        rest,
        replies,
        from,
        store,
        (),
        to,
        after,
    );
    stages::same_stage(first, first, replies, from, store, written, mid, between);
    summary_is_written(state, events, updated_at_ms, replies, from, store, mid, between);
    let middle: Workflow<(), ProjectionError> = |trace: Trace| rest(written, trace);
    assert forall|cut: int| 0 <= cut <= replies.len() implies steady::steady(
        second(Trace { replies, at: mid }),
        #[trigger] stages::stage_run(second, replies, mid, cut),
        replies,
        mid,
        cut,
    ) by {
        steady::rebuilt_scores_are_steady(replies, mid, cut, state, updated_at_ms);
    }
    let (rebuilt, end, scored) = stages::chained(
        middle,
        second,
        last,
        replies,
        mid,
        between,
        (),
        to,
        after,
    );
    let listed = scores_are_rebuilt(state, updated_at_ms, replies, mid, between, end, scored);
    let op = projections::checkpoint_op(game, state.revision, updated_at_ms);
    let ending: Workflow<(), ProjectionError> = |trace: Trace| last(rebuilt, trace);
    let tail = |rows: Seq<Row>, trace: Trace| script::done::<(), ProjectionError>(trace, ());
    let rows = stages::queried(ending, op, tail, replies, end, scored, (), to, after);
    stages::ended(
        |trace: Trace| tail(rows, trace),
        replies,
        end + 1,
        model::executed(scored, op).0,
        (),
        to,
        after,
        (),
    );
    assert(differs_in(scored, after, "projection_checkpoints"@));
    assert(after.rows("game_summaries"@) == scored.rows("game_summaries"@));
    assert(scored.rows("game_summaries"@) == between.rows("game_summaries"@));
    assert forall|other: Seq<char>|
        other != "game_summaries"@ && other != "game_scores"@ && other != "user_score_totals"@
            && other != "projection_checkpoints"@ implies #[trigger] after.rows(other)
        == store.rows(other) by {
        assert(scored.rows(other) == between.rows(other));
        assert(between.rows(other) == store.rows(other));
    }
    listed
}

/// A rebuild that is played as a stage leaves exactly the projections that state and events show.
pub proof fn game_is_projected(
    state: GameState,
    events: Seq<&GameEvent>,
    updated_at_ms: i64,
    replies: Seq<Reply>,
    from: int,
    store: Store,
    to: int,
    after: Store,
)
    requires
        stages::played(
            projecting(state, events, updated_at_ms),
            replies,
            from,
            store,
            (),
            to,
            after,
        ),
    ensures
        projected(store, after, state, events, updated_at_ms),
{
    tables_differ();
    let game = ids::id_text_of(state.metadata.id);
    let stage = projecting(state, events, updated_at_ms);
    let count = replies.len() as int;
    assert(replies.take(count) =~= replies);
    let delete = Op::delete("move_history"@).where_text("game_id"@, game);
    let before = (state.revision - events.len()) as u64;
    let first = writing_history(game, before, events, updated_at_ms, 0);
    let rest = |written: (), trace: Trace|
        projections::rebuild_rest_run(trace, state, events, updated_at_ms);
    let tail = |rows: Seq<Row>, trace: Trace|
        if state.revision < events.len() {
            script::fail::<(), ProjectionError>(trace, ProjectionError::Revision)
        } else {
            script::chain(first(trace), rest)
        };
    assert forall|trace: Trace| #[trigger] stage(trace) == script::query(trace, delete, tail) by {}
    steady::projecting_is_steady(replies, from, from, state, events, updated_at_ms);
    assert(stages::stage_run(stage, replies, from, from).outcome is Wait);
    let gone = stages::queried(stage, delete, tail, replies, from, store, (), to, after);
    let cleared = model::executed(store, delete).0;
    let second: Workflow<(), ProjectionError> = |trace: Trace| tail(gone, trace);
    assert(second(Trace { replies, at: from + 1 }).outcome is Done);
    assert forall|cut: int| 0 <= cut <= replies.len() implies steady::steady(
        first(Trace { replies, at: from + 1 }),
        #[trigger] stages::stage_run(first, replies, from + 1, cut),
        replies,
        from + 1,
        cut,
    ) by {
        steady::history_is_steady(
            replies,
            from + 1,
            cut,
            game,
            before,
            events,
            updated_at_ms,
            0,
        );
    }
    steady::history_is_steady(
        replies,
        from + 1,
        count,
        game,
        before,
        events,
        updated_at_ms,
        0,
    );
    let start = first(Trace { replies, at: from + 1 }).trace.at;
    steady::rest_is_steady(replies, start, count, state, events, updated_at_ms);
    let (written, mid, between) = stages::chained(
        second,
        first,
        rest,
        replies,
        from + 1,
        cleared,
        (),
        to,
        after,
    );
    history_is_written(
        game,
        before,
        events,
        updated_at_ms,
        0,
        replies,
        from + 1,
        cleared,
        mid,
        between,
    );
    stages::same_stage(
        |trace: Trace| rest(written, trace),
        |trace: Trace| projections::rebuild_rest_run(trace, state, events, updated_at_ms),
        replies,
        mid,
        between,
        (),
        to,
        after,
    );
    let listed = rest_is_rebuilt(
        state,
        events,
        updated_at_ms,
        replies,
        mid,
        between,
        to,
        after,
    );
    assert(totals_from(after.rows("game_scores"@), listed));
}

/// A rebuild that ends well leaves exactly the projections that state and events show.
pub proof fn rebuilds_project_the_game(
    state: GameState,
    events: Seq<&GameEvent>,
    updated_at_ms: i64,
    replies: Seq<Reply>,
    store: Store,
)
    requires
        model::served(projecting(state, events, updated_at_ms), replies, store),
        model::ending(projecting(state, events, updated_at_ms), replies) is Done,
    ensures
        projected(
            store,
            model::store_after(projecting(state, events, updated_at_ms), replies, store),
            state,
            events,
            updated_at_ms,
        ),
{
    let stage = projecting(state, events, updated_at_ms);
    let to = replies.len() as int;
    let after = model::store_after(stage, replies, store);
    assert forall|cut: int| 0 <= cut <= replies.len() implies steady::steady(
        stage(Trace { replies, at: 0 }),
        #[trigger] stages::stage_run(stage, replies, 0, cut),
        replies,
        0,
        cut,
    ) by {
        steady::projecting_is_steady(replies, 0, cut, state, events, updated_at_ms);
    }
    stages::whole_is_played(stage, replies, store, ());
    game_is_projected(state, events, updated_at_ms, replies, 0, store, to, after);
}

/// What is left is left again.
pub proof fn left_again(rows: Seq<Record>, filters: Seq<(Seq<char>, Relation, Datum)>)
    ensures
        model::left(model::left(rows, filters), filters) == model::left(rows, filters),
    decreases rows.len(),
{
    if rows.len() > 0 {
        left_again(rows.drop_last(), filters);
        let less = model::left(rows.drop_last(), filters);
        assert(less.push(rows.last()).drop_last() =~= less);
    }
}

/// Rows that meet the filters are not left.
pub proof fn left_without(
    rows: Seq<Record>,
    hits: Seq<Record>,
    filters: Seq<(Seq<char>, Relation, Datum)>,
)
    requires
        forall|i: int| 0 <= i < hits.len() ==> model::meets_all(#[trigger] hits[i], filters),
    ensures
        model::left(rows + hits, filters) == model::left(rows, filters),
    decreases hits.len(),
{
    if hits.len() == 0 {
        assert(rows + hits =~= rows);
    } else {
        let less = hits.drop_last();
        assert forall|i: int| 0 <= i < less.len() implies model::meets_all(
            #[trigger] less[i],
            filters,
        ) by {
            assert(less[i] == hits[i]);
        }
        left_without(rows, less, filters);
        assert((rows + hits).drop_last() =~= rows + less);
        assert(model::meets_all(hits[hits.len() - 1], filters));
    }
}

spec fn agree(left: Record, right: Record, column: Seq<char>) -> bool {
    left.contains_key(column) == right.contains_key(column) && (left.contains_key(column)
        ==> left[column] == right[column])
}

spec fn sets(values: Seq<(Seq<char>, Datum)>, column: Seq<char>) -> bool {
    exists|i: int| 0 <= i < values.len() && (#[trigger] values[i]).0 == column
}

proof fn assigned_alike(
    left: Record,
    right: Record,
    values: Seq<(Seq<char>, Datum)>,
    column: Seq<char>,
)
    requires
        sets(values, column) || agree(left, right, column),
    ensures
        agree(model::assigned(left, values), model::assigned(right, values), column),
    decreases values.len(),
{
    if values.len() > 0 && values.last().0 != column {
        let less = values.drop_last();
        if sets(values, column) {
            let i = choose|i: int| 0 <= i < values.len() && (#[trigger] values[i]).0 == column;
            assert(less[i].0 == column);
        }
        assigned_alike(left, right, less, column);
    }
}

proof fn assigned_elsewhere(record: Record, values: Seq<(Seq<char>, Datum)>, column: Seq<char>)
    requires
        !sets(values, column),
    ensures
        agree(model::assigned(record, values), record, column),
    decreases values.len(),
{
    if values.len() > 0 {
        let less = values.drop_last();
        assert(values[values.len() - 1].0 != column);
        if sets(less, column) {
            let i = choose|i: int| 0 <= i < less.len() && (#[trigger] less[i]).0 == column;
            assert(values[i].0 == column);
        }
        assigned_elsewhere(record, less, column);
    }
}

/// Setting columns again changes nothing.
proof fn assigned_again(record: Record, values: Seq<(Seq<char>, Datum)>)
    ensures
        model::assigned(model::assigned(record, values), values) == model::assigned(
            record,
            values,
        ),
{
    let once = model::assigned(record, values);
    let twice = model::assigned(once, values);
    assert forall|column: Seq<char>| agree(twice, once, column) by {
        if !sets(values, column) {
            assigned_elsewhere(record, values, column);
        }
        assigned_alike(once, record, values, column);
    }
    assert forall|column: Seq<char>| twice.contains_key(column) == once.contains_key(column) by {
        assert(agree(twice, once, column));
    }
    assert forall|column: Seq<char>| twice.contains_key(column) implies twice[column]
        == once[column] by {
        assert(agree(twice, once, column));
    }
    assert(twice =~= once);
}

/// An upsert by a key that it sets changes nothing when it is made again.
proof fn upserted_again(rows: Seq<Record>, op: Op)
    requires
        op.filters.len() == 1,
        op.filters[0].1 == Relation::Equal,
        !(op.filters[0].2 is Null),
        op.values.len() > 0,
        op.values[0] == (op.filters[0].0, op.filters[0].2),
        forall|i: int| 0 < i < op.values.len() ==> (#[trigger] op.values[i]).0 != op.values[0].0,
    ensures
        upserted(upserted(rows, op), op) == upserted(rows, op),
{
    let once = upserted(rows, op);
    let fresh = model::assigned(Map::empty(), op.values);
    model::found_rows(rows, op.filters);
    model::found_rows(once, op.filters);
    model::assigned_sets(Map::empty(), op.values, 0);
    assert(model::meets_all(fresh, op.filters)) by {
        assert(model::meets(fresh, op.filters[0]));
    }
    if model::found(rows, op.filters).len() == 0 {
        assert(model::meets_all(once[rows.len() as int], op.filters));
        assigned_again(Map::empty(), op.values);
        assert forall|i: int| 0 <= i < once.len() implies model::updated(
            once,
            op.filters,
            op.values,
        )[i] == once[i] by {
            if i < rows.len() {
                assert(!model::meets_all(rows[i], op.filters));
            }
        }
    } else {
        let hit = choose|i: int|
            0 <= i < rows.len() && model::meets_all(#[trigger] rows[i], op.filters);
        assert forall|i: int|
            0 <= i < rows.len() && model::meets_all(
                #[trigger] rows[i],
                op.filters,
            ) implies model::meets_all(once[i], op.filters) by {
            model::assigned_sets(rows[i], op.values, 0);
            assert(model::meets(once[i], op.filters[0]));
        }
        assert(model::meets_all(once[hit], op.filters));
        assert forall|i: int| 0 <= i < once.len() implies model::updated(
            once,
            op.filters,
            op.values,
        )[i] == once[i] by {
            if model::meets_all(rows[i], op.filters) {
                assigned_again(rows[i], op.values);
            }
        }
    }
    assert(model::updated(once, op.filters, op.values) =~= once);
}

pub proof fn history_is_of_the_game(
    seats: Seq<Record>,
    game: Seq<char>,
    revision: int,
    event: GameEvent,
    updated_at_ms: i64,
)
    ensures
        model::meets_all(
            history_record(seats, game, revision, event, updated_at_ms),
            of_game(game),
        ),
{
    let user = user_in(seats, game, projections::history_of(event).0);
    let op = projections::insert_move_op(game, revision as u64, user, event, updated_at_ms);
    reveal_strlit("game_id");
    reveal_strlit("revision");
    reveal_strlit("player_user_id");
    reveal_strlit("event_kind");
    reveal_strlit("score_delta");
    reveal_strlit("created_at_ms");
    assert("game_id"@.len() == 7);
    assert("revision"@.len() == 8);
    assert("player_user_id"@.len() == 14);
    assert("event_kind"@.len() == 10);
    assert("score_delta"@.len() == 11);
    assert("created_at_ms"@.len() == 13);
    assert(op.values[1] == ("game_id"@, Datum::Text(game)));
    model::assigned_sets(Map::empty(), op.values, 1);
    let record = history_record(seats, game, revision, event, updated_at_ms);
    assert(model::meets(record, of_game(game)[0]));
}

pub proof fn score_is_of_the_game(
    seats: Seq<Record>,
    state: GameState,
    player: PlayerId,
    updated_at_ms: i64,
)
    ensures
        model::meets_all(
            score_record(seats, state, player, updated_at_ms),
            of_game(ids::id_text_of(state.metadata.id)),
        ),
{
    let game = ids::id_text_of(state.metadata.id);
    let user = user_in(seats, game, Some(player))->0;
    let op = projections::insert_score_op(game, user, state, player, updated_at_ms);
    reveal_strlit("game_id");
    reveal_strlit("user_id");
    reveal_strlit("score");
    reveal_strlit("outcome");
    reveal_strlit("updated_at_ms");
    assert("game_id"@.len() == 7 && "game_id"@[0] == 'g');
    assert("user_id"@.len() == 7 && "user_id"@[0] == 'u');
    assert("score"@.len() == 5);
    assert("outcome"@.len() == 7 && "outcome"@[0] == 'o');
    assert("updated_at_ms"@.len() == 13);
    assert(op.values[1] == ("game_id"@, Datum::Text(game)));
    model::assigned_sets(Map::empty(), op.values, 1);
    let record = score_record(seats, state, player, updated_at_ms);
    assert(model::meets(record, of_game(game)[0]));
}

proof fn summary_repeats(
    rows: Seq<Record>,
    seats: Seq<Record>,
    state: GameState,
    events: Seq<&GameEvent>,
    updated_at_ms: i64,
)
    ensures
        upserted(
            upserted(rows, summary_of(seats, state, events, updated_at_ms)),
            summary_of(seats, state, events, updated_at_ms),
        ) == upserted(rows, summary_of(seats, state, events, updated_at_ms)),
{
    let op = summary_of(seats, state, events, updated_at_ms);
    reveal_strlit("game_id");
    reveal_strlit("status");
    reveal_strlit("active_player_user_id");
    reveal_strlit("canonical_revision");
    reveal_strlit("last_score");
    reveal_strlit("winner_user_id");
    reveal_strlit("updated_at_ms");
    assert("game_id"@.len() == 7);
    assert("status"@.len() == 6);
    assert("active_player_user_id"@.len() == 21);
    assert("canonical_revision"@.len() == 18);
    assert("last_score"@.len() == 10);
    assert("winner_user_id"@.len() == 14);
    assert("updated_at_ms"@.len() == 13);
    upserted_again(rows, op);
}

proof fn checkpoint_repeats(
    rows: Seq<Record>,
    game: Seq<char>,
    revision: u64,
    updated_at_ms: i64,
)
    ensures
        upserted(
            upserted(rows, projections::checkpoint_op(game, revision, updated_at_ms)),
            projections::checkpoint_op(game, revision, updated_at_ms),
        ) == upserted(rows, projections::checkpoint_op(game, revision, updated_at_ms)),
{
    let op = projections::checkpoint_op(game, revision, updated_at_ms);
    reveal_strlit("projection_id");
    reveal_strlit("game_id");
    reveal_strlit("revision");
    reveal_strlit("updated_at_ms");
    assert("projection_id"@.len() == 13 && "projection_id"@[0] == 'p');
    assert("game_id"@.len() == 7);
    assert("revision"@.len() == 8);
    assert("updated_at_ms"@.len() == 13 && "updated_at_ms"@[0] == 'u');
    upserted_again(rows, op);
}

/// Rebuilding a game's projections again from the same state and events, at the same moment,
/// changes no table.
pub proof fn rebuilding_is_idempotent(
    state: GameState,
    events: Seq<&GameEvent>,
    updated_at_ms: i64,
    replies: Seq<Reply>,
    store: Store,
    later_replies: Seq<Reply>,
    table: Seq<char>,
)
    requires
        model::served(projecting(state, events, updated_at_ms), replies, store),
        model::ending(projecting(state, events, updated_at_ms), replies) is Done,
        model::served(
            projecting(state, events, updated_at_ms),
            later_replies,
            model::store_after(projecting(state, events, updated_at_ms), replies, store),
        ),
        model::ending(projecting(state, events, updated_at_ms), later_replies) is Done,
    ensures
        model::store_after(
            projecting(state, events, updated_at_ms),
            later_replies,
            model::store_after(projecting(state, events, updated_at_ms), replies, store),
        ).rows(table) == model::store_after(
            projecting(state, events, updated_at_ms),
            replies,
            store,
        ).rows(table),
{
    tables_differ();
    let workflow = projecting(state, events, updated_at_ms);
    let once = model::store_after(workflow, replies, store);
    let twice = model::store_after(workflow, later_replies, once);
    rebuilds_project_the_game(state, events, updated_at_ms, replies, store);
    rebuilds_project_the_game(state, events, updated_at_ms, later_replies, once);
    let game = ids::id_text_of(state.metadata.id);
    let seats = store.rows("game_players"@);
    let before = (state.revision - events.len()) as u64;
    assert(once.rows("game_players"@) == seats);
    let history = history_records(seats, game, before, events, updated_at_ms, 0);
    assert forall|i: int| 0 <= i < history.len() implies model::meets_all(
        #[trigger] history[i],
        of_game(game),
    ) by {
        history_is_of_the_game(seats, game, before + i + 1, *events[i], updated_at_ms);
    }
    let other_moves = model::left(store.rows("move_history"@), of_game(game));
    left_without(other_moves, history, of_game(game));
    left_again(store.rows("move_history"@), of_game(game));
    let scores = final_scores(seats, state, updated_at_ms);
    assert forall|i: int| 0 <= i < scores.len() implies model::meets_all(
        #[trigger] scores[i],
        of_game(game),
    ) by {
        score_is_of_the_game(seats, state, state.players@[i], updated_at_ms);
    }
    let other_scores = model::left(store.rows("game_scores"@), of_game(game));
    left_without(other_scores, scores, of_game(game));
    left_again(store.rows("game_scores"@), of_game(game));
    summary_repeats(store.rows("game_summaries"@), seats, state, events, updated_at_ms);
    checkpoint_repeats(
        store.rows("projection_checkpoints"@),
        game,
        state.revision,
        updated_at_ms,
    );
    let first = choose|listed: Seq<TotalsView>|
        #[trigger] totals_from(once.rows("game_scores"@), listed) && once.rows(
            "user_score_totals"@,
        ) == totals::total_records(listed, updated_at_ms);
    let second = choose|listed: Seq<TotalsView>|
        #[trigger] totals_from(twice.rows("game_scores"@), listed) && twice.rows(
            "user_score_totals"@,
        ) == totals::total_records(listed, updated_at_ms);
    assert(twice.rows("game_scores"@) == once.rows("game_scores"@));
    let left = choose|rows: Seq<Row>|
        #[trigger] model::all_shown(rows, once.rows("game_scores"@)) && projections::tally(rows)
            == Some(first);
    let right = choose|rows: Seq<Row>|
        #[trigger] model::all_shown(rows, once.rows("game_scores"@)) && projections::tally(rows)
            == Some(second);
    one_tally(left, right, once.rows("game_scores"@));
}

} // verus!
