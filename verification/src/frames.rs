//! Which tables the creation and projection of a game touch.
use crate::challenges::{self, CreationView};
use crate::game::{self, GameEvent, GameId, GameState, PlayerId, Timestamp};
use crate::ids;
use crate::journal::{self, EventRecord};
use crate::projections::{self, TotalsView};
use crate::model::{self, Store, Workflow};
use crate::script::{self, Ask, Outcome, Reply, Run, Trace};
use crate::stages;
use crate::store::{Op, Row, Verb};
use vstd::prelude::*;

verus! {

/// The tables that hold games and what is projected from them.
pub open spec fn game_table(table: Seq<char>) -> bool {
    ||| table == "games"@
    ||| table == "game_players"@
    ||| table == "game_journal"@
    ||| table == "game_commands"@
    ||| table == "game_snapshots"@
    ||| table == "move_history"@
    ||| table == "game_summaries"@
    ||| table == "game_scores"@
    ||| table == "user_score_totals"@
    ||| table == "projection_checkpoints"@
}

/// Whether a request leaves every table but those of games alone and ends no transaction.
pub open spec fn game_ask(ask: Ask) -> bool {
    match ask {
        Ask::Store(op) => game_table(op.table) && op.verb != Verb::Begin && op.verb != Verb::Commit
            && op.verb != Verb::Rollback,
        _ => true,
    }
}

/// The tables that hold what is projected from games.
pub open spec fn projection_table(table: Seq<char>) -> bool {
    ||| table == "move_history"@
    ||| table == "game_summaries"@
    ||| table == "game_scores"@
    ||| table == "user_score_totals"@
    ||| table == "projection_checkpoints"@
}

/// Whether a request reads the tables of games and writes those of projections at most.
pub open spec fn projection_ask(ask: Ask) -> bool {
    game_ask(ask) && (ask matches Ask::Store(op) ==> op.verb == Verb::Select || projection_table(
        op.table,
    ))
}

/// Whether a run that waits, waits for such a request.
pub open spec fn keeps_to_projections<T, E>(run: Run<T, E>) -> bool {
    run.outcome matches Outcome::Wait(ask) ==> projection_ask(ask)
}

/// Whether a run that waits, waits for a request that keeps to the tables of games.
pub open spec fn keeps_to_games<T, E>(run: Run<T, E>) -> bool {
    run.outcome matches Outcome::Wait(ask) ==> game_ask(ask)
}

/// No other table is one of those of games.
pub proof fn other_tables()
    ensures
        !game_table("challenges"@),
        !game_table("invitations"@),
        !game_table("game_lobbies"@),
        !game_table("game_lobby_members"@),
        !game_table("auth_login_attempts"@),
{
    reveal_strlit("games");
    reveal_strlit("game_players");
    reveal_strlit("game_journal");
    reveal_strlit("game_commands");
    reveal_strlit("game_snapshots");
    reveal_strlit("move_history");
    reveal_strlit("game_summaries");
    reveal_strlit("game_scores");
    reveal_strlit("user_score_totals");
    reveal_strlit("projection_checkpoints");
    reveal_strlit("challenges");
    reveal_strlit("invitations");
    reveal_strlit("game_lobbies");
    reveal_strlit("game_lobby_members");
    reveal_strlit("auth_login_attempts");
    assert("games"@.len() == 5);
    assert("game_players"@.len() == 12 && "game_players"@[5] == 'p');
    assert("game_journal"@.len() == 12 && "game_journal"@[5] == 'j');
    assert("game_commands"@.len() == 13);
    assert("game_snapshots"@.len() == 14);
    assert("move_history"@.len() == 12 && "move_history"@[0] == 'm');
    assert("game_summaries"@.len() == 14);
    assert("game_scores"@.len() == 11 && "game_scores"@[0] == 'g');
    assert("user_score_totals"@.len() == 17);
    assert("projection_checkpoints"@.len() == 22);
    assert("challenges"@.len() == 10);
    assert("invitations"@.len() == 11 && "invitations"@[0] == 'i');
    assert("game_lobbies"@.len() == 12 && "game_lobbies"@[5] == 'l');
    assert("game_lobby_members"@.len() == 18);
    assert("auth_login_attempts"@.len() == 19);
}

proof fn history_keeps(
    trace: Trace,
    game: Seq<char>,
    before: u64,
    events: Seq<&GameEvent>,
    updated_at_ms: i64,
    index: int,
)
    ensures
        keeps_to_projections(
            projections::write_history_run(trace, game, before, events, updated_at_ms, index),
        ),
    decreases events.len() - index,
{
    if index < events.len() {
        let user = projections::user_for_option_run(
            trace,
            game,
            projections::history_of(*events[index]).0,
        );
        history_keeps(user.trace.next(), game, before, events, updated_at_ms, index + 1);
    }
}

proof fn totals_keep(trace: Trace, totals: Seq<TotalsView>, updated_at_ms: i64, index: int)
    ensures
        keeps_to_projections(projections::write_totals_run(trace, totals, updated_at_ms, index)),
    decreases totals.len() - index,
{
    if index < totals.len() {
        totals_keep(trace.next(), totals, updated_at_ms, index + 1);
    }
}

proof fn rebuilt_totals_keep(trace: Trace, updated_at_ms: i64)
    ensures
        keeps_to_projections(projections::rebuild_totals_run(trace, updated_at_ms)),
{
    if !trace.spent() {
        if let Reply::Rows(rows) = trace.reply() {
            if let Some(totals) = projections::tally(rows@) {
                totals_keep(trace.next().next(), totals, updated_at_ms, 0);
            }
        }
    }
}

proof fn scores_keep(
    trace: Trace,
    game: Seq<char>,
    state: GameState,
    updated_at_ms: i64,
    index: int,
)
    ensures
        keeps_to_projections(projections::write_scores_run(trace, game, state, updated_at_ms, index)),
    decreases state.players@.len() - index,
{
    if index < state.players@.len() {
        let user = projections::user_for_player_run(trace, game, state.players@[index]);
        scores_keep(user.trace.next(), game, state, updated_at_ms, index + 1);
    }
}

proof fn rebuilt_scores_keep(trace: Trace, state: GameState, updated_at_ms: i64)
    ensures
        keeps_to_projections(projections::rebuild_scores_run(trace, state, updated_at_ms)),
{
    let game = ids::id_text_of(state.metadata.id);
    scores_keep(trace.next(), game, state, updated_at_ms, 0);
    let written = projections::write_scores_run(trace.next(), game, state, updated_at_ms, 0);
    rebuilt_totals_keep(written.trace, updated_at_ms);
    rebuilt_totals_keep(trace.next(), updated_at_ms);
}

proof fn summary_keeps(
    trace: Trace,
    game: Seq<char>,
    state: GameState,
    events: Seq<&GameEvent>,
    updated_at_ms: i64,
)
    ensures
        keeps_to_projections(
            projections::write_summary_run(trace, game, state, events, updated_at_ms),
        ),
{
}

/// Rebuilding a game's projections writes the tables of projections only.
pub proof fn projections_keep(
    trace: Trace,
    state: GameState,
    events: Seq<&GameEvent>,
    updated_at_ms: i64,
)
    ensures
        keeps_to_projections(projections::project_game_run(trace, state, events, updated_at_ms)),
{
    let game = ids::id_text_of(state.metadata.id);
    let before = (state.revision - events.len()) as u64;
    history_keeps(trace.next(), game, before, events, updated_at_ms, 0);
    let history = projections::write_history_run(
        trace.next(),
        game,
        before,
        events,
        updated_at_ms,
        0,
    );
    summary_keeps(history.trace, game, state, events, updated_at_ms);
    let summary = projections::write_summary_run(history.trace, game, state, events, updated_at_ms);
    rebuilt_scores_keep(summary.trace, state, updated_at_ms);
}

proof fn rows_keep(
    trace: Trace,
    game_id: GameId,
    rows: Seq<Row>,
    index: int,
    read: Seq<EventRecord>,
)
    ensures
        keeps_to_projections(journal::journal_rows_run(trace, game_id, rows, index, read)),
    decreases rows.len() - index,
{
    if index < rows.len() {
        let row = journal::journal_row_run(trace, game_id, rows[index]);
        if let Outcome::Done(event) = row.outcome {
            rows_keep(row.trace, game_id, rows, index + 1, read.push(event));
        }
    }
}

/// Loading a journal writes the tables of projections at most.
pub proof fn loading_keeps(trace: Trace, game_id: GameId, after_revision: u64)
    ensures
        keeps_to_projections(journal::load_events_run(trace, game_id, after_revision)),
{
    if !trace.spent() {
        if let Reply::Rows(rows) = trace.reply() {
            rows_keep(trace.next(), game_id, rows@, 0, Seq::empty());
        }
    }
}

proof fn seats_keep(
    trace: Trace,
    game_id: GameId,
    players: Seq<PlayerId>,
    users: Seq<Seq<char>>,
    seat: int,
)
    ensures
        keeps_to_games(challenges::seat_users_run(trace, game_id, players, users, seat)),
    decreases users.len() - seat,
{
    if seat < users.len() {
        seats_keep(trace.next(), game_id, players, users, seat + 1);
    }
}

/// Projecting a new game writes the tables of projections only.
pub proof fn start_keeps(
    trace: Trace,
    game_id: GameId,
    started: GameEvent,
    seats: int,
    now_ms: i64,
)
    ensures
        keeps_to_projections(challenges::project_start_run(trace, game_id, started, seats, now_ms)),
{
    if !trace.spent() {
        if let Some(state) = script::reply_state(trace.reply()) {
            let loading = trace.next().next();
            loading_keeps(loading, game_id, 0);
            let loaded = journal::load_events_run(loading, game_id, 0);
            if let Outcome::Done(records) = loaded.outcome {
                projections_keep(loaded.trace, state, journal::event_refs(records), now_ms);
            }
        }
    }
}

proof fn dealing_keeps(
    trace: Trace,
    creation: CreationView,
    game_id: GameId,
    players: Seq<PlayerId>,
)
    ensures
        keeps_to_games(challenges::deal_game_run(trace, creation, game_id, players)),
{
    if !trace.spent() {
        if let (Some(started), Some(now_ms)) = (
            script::reply_event(trace.reply()),
            game::millis_at(creation.now),
        ) {
            let seating = trace.next().next();
            seats_keep(seating, game_id, players, creation.users, 0);
            let seated = challenges::seat_users_run(seating, game_id, players, creation.users, 0);
            let recorded = challenges::record_start_run(
                seated.trace,
                game_id,
                creation.key,
                started,
            );
            start_keeps(
                recorded.trace,
                game_id,
                started,
                creation.users.len() as int,
                now_ms,
            );
        }
    }
}

/// Creating a game touches the tables of games only.
pub proof fn creation_keeps(trace: Trace, creation: CreationView)
    ensures
        keeps_to_games(challenges::create_game_run(trace, creation)),
{
    if challenges::valid_seating(creation.users, creation.first) && !trace.spent() {
        if let Reply::Ids(game) = trace.reply() {
            let seating = trace.next();
            if !seating.spent() {
                if let Reply::Ids(players) = seating.reply() {
                    dealing_keeps(seating.next().next(), creation, game@[0], players@);
                }
            }
        }
    }
}

/// Creating a classic game touches the tables of games only.
pub proof fn classic_creation_keeps(
    trace: Trace,
    users: Seq<Seq<char>>,
    first: int,
    now: Timestamp,
    seed: u64,
    key: Seq<char>,
)
    ensures
        keeps_to_games(
            challenges::create_classic_game_run(trace, users, first, now, seed, key),
        ),
{
    if !trace.spent() {
        if let Some(rules) = script::reply_rules(trace.reply()) {
            creation_keeps(
                trace.next(),
                CreationView {
                    users,
                    first,
                    rules,
                    now,
                    seed,
                    key,
                    visibility: challenges::GameVisibilitySettings::hidden(),
                },
            );
        }
    }
}

/// A statement on another table, and the end of a transaction that stands, leave a table alone.
proof fn other_rows_stay(store: Store, op: Op, table: Seq<char>)
    requires
        !game_table(table),
        game_ask(Ask::Store(op)) || op == Op::commit(),
    ensures
        model::executed(store, op).0.rows(table) == store.rows(table),
{
}

/// While a workflow keeps to the tables of games, or commits, every other table keeps its rows.
pub proof fn table_stays<T, E>(
    workflow: Workflow<T, E>,
    replies: Seq<Reply>,
    store: Store,
    from: int,
    to: int,
    table: Seq<char>,
)
    requires
        0 <= from <= to,
        !game_table(table),
        forall|place: int|
            from <= place < to ==> ((#[trigger] model::asked(workflow, replies, place)) matches Some(
                ask,
            ) ==> game_ask(ask) || ask == Ask::Store(Op::commit())),
    ensures
        model::store_at(workflow, replies, store, to).rows(table) == model::store_at(
            workflow,
            replies,
            store,
            from,
        ).rows(table),
    decreases to - from,
{
    if from < to {
        table_stays(workflow, replies, store, from, to - 1, table);
        let before = model::store_at(workflow, replies, store, to - 1);
        if let Some(Ask::Store(op)) = model::asked(workflow, replies, to - 1) {
            other_rows_stay(before, op, table);
        }
    }
}

/// Whether a run that waits for the store only reads it.
pub open spec fn only_reads<T, E>(run: Run<T, E>) -> bool {
    run.outcome matches Outcome::Wait(Ask::Store(op)) ==> op.verb == Verb::Select
}

proof fn rows_only_read(
    trace: Trace,
    game_id: GameId,
    rows: Seq<Row>,
    index: int,
    read: Seq<EventRecord>,
)
    ensures
        only_reads(journal::journal_rows_run(trace, game_id, rows, index, read)),
    decreases rows.len() - index,
{
    if index < rows.len() {
        let row = journal::journal_row_run(trace, game_id, rows[index]);
        if let Outcome::Done(event) = row.outcome {
            rows_only_read(row.trace, game_id, rows, index + 1, read.push(event));
        }
    }
}

proof fn applying_only_reads(
    trace: Trace,
    state: Option<GameState>,
    events: Seq<GameEvent>,
    index: int,
)
    ensures
        only_reads(journal::apply_events_run(trace, state, events, index)),
    decreases events.len() - index,
{
    if index < events.len() && !trace.spent() {
        if let Some(next) = script::reply_state(trace.reply()) {
            applying_only_reads(trace.next(), Some(next), events, index + 1);
        }
    }
}

/// Recovering a game only reads the store.
pub proof fn recovery_only_reads(trace: Trace, game_id: GameId)
    ensures
        only_reads(journal::recover_game_run(trace, game_id)),
{
    let first = journal::load_latest_snapshot_run(trace, game_id);
    if let Outcome::Done(snapshot) = first.outcome {
        let after = match snapshot {
            Some(state) => state.revision,
            None => 0,
        };
        if !first.trace.spent() {
            if let Reply::Rows(rows) = first.trace.reply() {
                rows_only_read(first.trace.next(), game_id, rows@, 0, Seq::empty());
            }
        }
        let second = journal::load_events_run(first.trace, game_id, after);
        if let Outcome::Done(tail) = second.outcome {
            applying_only_reads(second.trace, snapshot, journal::record_events(tail), 0);
        }
    }
}

/// While a workflow only reads, the store stays as it is.
pub proof fn store_stays<T, E>(
    workflow: Workflow<T, E>,
    replies: Seq<Reply>,
    store: Store,
    place: int,
)
    requires
        0 <= place,
        forall|earlier: int|
            0 <= earlier < place ==> ((#[trigger] model::asked(
                workflow,
                replies,
                earlier,
            )) matches Some(Ask::Store(op)) ==> op.verb == Verb::Select),
    ensures
        model::store_at(workflow, replies, store, place) == store,
    decreases place,
{
    if place > 0 {
        store_stays(workflow, replies, store, place - 1);
        let ask = model::asked(workflow, replies, place - 1);
    }
}

/// A stage that keeps to projections leaves every other table as it is.
pub proof fn stage_leaves<T, E>(
    stage: Workflow<T, E>,
    replies: Seq<Reply>,
    from: int,
    store: Store,
    place: int,
    table: Seq<char>,
)
    requires
        !projection_table(table),
        forall|trace: Trace| keeps_to_projections(#[trigger] stage(trace)),
    ensures
        stages::stage_store(stage, replies, from, store, place).rows(table) == store.rows(table),
    decreases place - from,
{
    if place > from {
        stage_leaves(stage, replies, from, store, place - 1, table);
        let run = stages::stage_run(stage, replies, from, place - 1);
        assert(keeps_to_projections(run));
    }
}

} // verus!
