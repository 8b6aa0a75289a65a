//! Workflows read their replies in order: what a workflow does with its first replies does not
//! depend on those that follow.
use crate::challenges::{self, CreationView};
use crate::external_identities::{self, IdentityView};
use crate::game::{self, GameEvent, GameId, GameState, PlayerId, Span, Timestamp};
use crate::game_service::{self, SubmissionView};
use crate::google_accounts;
use crate::ids;
use crate::journal::{self, CommandView, EventRecord};
use crate::projections::{self, TotalsView};
use crate::rack_preferences;
use crate::script::{self, Outcome, Reply, Run, Trace};
use crate::store::Row;
use vstd::prelude::*;

verus! {

/// Whether a run that began at `at` of `replies` goes on from there, and ends the same way on the
/// first `count` replies, as long as it used no more of them.
pub open spec fn steady<T, E>(
    full: Run<T, E>,
    cut: Run<T, E>,
    replies: Seq<Reply>,
    at: int,
    count: int,
) -> bool {
    &&& full.trace.replies == replies
    &&& full.trace.at >= at
    &&& !(full.outcome is Wait) && full.trace.at <= count ==> cut.outcome == full.outcome
        && cut.trace == (Trace { replies: replies.take(count), at: full.trace.at })
    &&& !(cut.outcome is Wait) ==> full.outcome == cut.outcome && full.trace.at == cut.trace.at
        && (at <= count ==> cut.trace.at <= count)
}

pub proof fn applying_is_steady(
    replies: Seq<Reply>,
    at: int,
    count: int,
    state: Option<GameState>,
    events: Seq<GameEvent>,
    index: int,
)
    requires
        0 <= at,
        0 <= count <= replies.len(),
    ensures
        steady(
            journal::apply_events_run(Trace { replies, at }, state, events, index),
            journal::apply_events_run(
                Trace { replies: replies.take(count), at },
                state,
                events,
                index,
            ),
            replies,
            at,
            count,
        ),
    decreases events.len() - index,
{
    if index < events.len() && at < replies.len() {
        if let Some(next) = script::reply_state(replies[at]) {
            applying_is_steady(replies, at + 1, count, Some(next), events, index + 1);
        }
        if at < count {
            assert(replies.take(count)[at] == replies[at]);
        }
    }
}

proof fn rows_are_steady(
    replies: Seq<Reply>,
    at: int,
    count: int,
    game_id: GameId,
    rows: Seq<Row>,
    index: int,
    read: Seq<EventRecord>,
)
    requires
        0 <= at,
        0 <= count <= replies.len(),
    ensures
        steady(
            journal::journal_rows_run(Trace { replies, at }, game_id, rows, index, read),
            journal::journal_rows_run(
                Trace { replies: replies.take(count), at },
                game_id,
                rows,
                index,
                read,
            ),
            replies,
            at,
            count,
        ),
    decreases rows.len() - index,
{
    if index < rows.len() {
        let row = journal::journal_row_run(Trace { replies, at }, game_id, rows[index]);
        if 0 <= at < count {
            assert(replies.take(count)[at] == replies[at]);
        }
        if let Outcome::Done(event) = row.outcome {
            rows_are_steady(
                replies,
                row.trace.at,
                count,
                game_id,
                rows,
                index + 1,
                read.push(event),
            );
        }
    }
}

pub proof fn loading_is_steady(
    replies: Seq<Reply>,
    at: int,
    count: int,
    game_id: GameId,
    after_revision: u64,
)
    requires
        0 <= at,
        0 <= count <= replies.len(),
    ensures
        steady(
            journal::load_events_run(Trace { replies, at }, game_id, after_revision),
            journal::load_events_run(
                Trace { replies: replies.take(count), at },
                game_id,
                after_revision,
            ),
            replies,
            at,
            count,
        ),
{
    if at < replies.len() {
        if at < count {
            assert(replies.take(count)[at] == replies[at]);
        }
        if let Reply::Rows(rows) = replies[at] {
            rows_are_steady(replies, at + 1, count, game_id, rows@, 0, Seq::empty());
        }
    }
}

proof fn snapshot_is_steady(replies: Seq<Reply>, at: int, count: int, game_id: GameId)
    requires
        0 <= at,
        0 <= count <= replies.len(),
    ensures
        steady(
            journal::load_latest_snapshot_run(Trace { replies, at }, game_id),
            journal::load_latest_snapshot_run(
                Trace { replies: replies.take(count), at },
                game_id,
            ),
            replies,
            at,
            count,
        ),
{
    if at < count {
        assert(replies.take(count)[at] == replies[at]);
    }
    if at + 1 < count {
        assert(replies.take(count)[at + 1] == replies[at + 1]);
    }
}

pub proof fn recovery_is_steady(replies: Seq<Reply>, at: int, count: int, game_id: GameId)
    requires
        0 <= at,
        0 <= count <= replies.len(),
    ensures
        steady(
            journal::recover_game_run(Trace { replies, at }, game_id),
            journal::recover_game_run(Trace { replies: replies.take(count), at }, game_id),
            replies,
            at,
            count,
        ),
{
    let start = Trace { replies, at };
    snapshot_is_steady(replies, at, count, game_id);
    let first = journal::load_latest_snapshot_run(start, game_id);
    if let Outcome::Done(snapshot) = first.outcome {
        let after = match snapshot {
            Some(state) => state.revision,
            None => 0,
        };
        loading_is_steady(replies, first.trace.at, count, game_id, after);
        let second = journal::load_events_run(first.trace, game_id, after);
        if let Outcome::Done(tail) = second.outcome {
            applying_is_steady(
                replies,
                second.trace.at,
                count,
                snapshot,
                journal::record_events(tail),
                0,
            );
        }
    }
}

pub proof fn rack_is_steady(
    replies: Seq<Reply>,
    at: int,
    count: int,
    game_id: GameId,
    user_id: Seq<char>,
)
    requires
        0 <= at,
        0 <= count <= replies.len(),
    ensures
        steady(
            rack_preferences::rack_run(Trace { replies, at }, game_id, user_id),
            rack_preferences::rack_run(
                Trace { replies: replies.take(count), at },
                game_id,
                user_id,
            ),
            replies,
            at,
            count,
        ),
{
    if at < count {
        assert(replies.take(count)[at] == replies[at]);
    }
    recovery_is_steady(replies, at + 1, count, game_id);
}

pub proof fn inserting_is_steady(
    replies: Seq<Reply>,
    at: int,
    count: int,
    command: CommandView,
    events: Seq<&GameEvent>,
    index: int,
)
    requires
        0 <= at,
        0 <= count <= replies.len(),
    ensures
        steady(
            journal::insert_events_run(Trace { replies, at }, command, events, index),
            journal::insert_events_run(
                Trace { replies: replies.take(count), at },
                command,
                events,
                index,
            ),
            replies,
            at,
            count,
        ),
    decreases events.len() - index,
{
    if index < events.len() {
        if at < count {
            assert(replies.take(count)[at] == replies[at]);
        }
        if at + 1 < count {
            assert(replies.take(count)[at + 1] == replies[at + 1]);
        }
        inserting_is_steady(replies, at + 2, count, command, events, index + 1);
    }
}

pub proof fn history_is_steady(
    replies: Seq<Reply>,
    at: int,
    count: int,
    game: Seq<char>,
    before: u64,
    events: Seq<&GameEvent>,
    updated_at_ms: i64,
    index: int,
)
    requires
        0 <= at,
        0 <= count <= replies.len(),
    ensures
        steady(
            projections::write_history_run(
                Trace { replies, at },
                game,
                before,
                events,
                updated_at_ms,
                index,
            ),
            projections::write_history_run(
                Trace { replies: replies.take(count), at },
                game,
                before,
                events,
                updated_at_ms,
                index,
            ),
            replies,
            at,
            count,
        ),
    decreases events.len() - index,
{
    if index < events.len() {
        if at < count {
            assert(replies.take(count)[at] == replies[at]);
        }
        if at + 1 < count {
            assert(replies.take(count)[at + 1] == replies[at + 1]);
        }
        history_is_steady(
            replies,
            at + 1,
            count,
            game,
            before,
            events,
            updated_at_ms,
            index + 1,
        );
        history_is_steady(
            replies,
            at + 2,
            count,
            game,
            before,
            events,
            updated_at_ms,
            index + 1,
        );
    }
}

pub proof fn totals_are_steady(
    replies: Seq<Reply>,
    at: int,
    count: int,
    totals: Seq<TotalsView>,
    updated_at_ms: i64,
    index: int,
)
    requires
        0 <= at,
        0 <= count <= replies.len(),
    ensures
        steady(
            projections::write_totals_run(Trace { replies, at }, totals, updated_at_ms, index),
            projections::write_totals_run(
                Trace { replies: replies.take(count), at },
                totals,
                updated_at_ms,
                index,
            ),
            replies,
            at,
            count,
        ),
    decreases totals.len() - index,
{
    if index < totals.len() {
        if at < count {
            assert(replies.take(count)[at] == replies[at]);
        }
        totals_are_steady(replies, at + 1, count, totals, updated_at_ms, index + 1);
    }
}

pub proof fn rebuilt_totals_are_steady(replies: Seq<Reply>, at: int, count: int, updated_at_ms: i64)
    requires
        0 <= at,
        0 <= count <= replies.len(),
    ensures
        steady(
            projections::rebuild_totals_run(Trace { replies, at }, updated_at_ms),
            projections::rebuild_totals_run(
                Trace { replies: replies.take(count), at },
                updated_at_ms,
            ),
            replies,
            at,
            count,
        ),
{
    if at < replies.len() {
        if at < count {
            assert(replies.take(count)[at] == replies[at]);
        }
        if at + 1 < count {
            assert(replies.take(count)[at + 1] == replies[at + 1]);
        }
        if let Reply::Rows(rows) = replies[at] {
            if let Some(totals) = projections::tally(rows@) {
                totals_are_steady(replies, at + 2, count, totals, updated_at_ms, 0);
            }
        }
    }
}

pub proof fn scores_are_steady(
    replies: Seq<Reply>,
    at: int,
    count: int,
    game: Seq<char>,
    state: GameState,
    updated_at_ms: i64,
    index: int,
)
    requires
        0 <= at,
        0 <= count <= replies.len(),
    ensures
        steady(
            projections::write_scores_run(
                Trace { replies, at },
                game,
                state,
                updated_at_ms,
                index,
            ),
            projections::write_scores_run(
                Trace { replies: replies.take(count), at },
                game,
                state,
                updated_at_ms,
                index,
            ),
            replies,
            at,
            count,
        ),
    decreases state.players@.len() - index,
{
    if index < state.players@.len() {
        if at < count {
            assert(replies.take(count)[at] == replies[at]);
        }
        if at + 1 < count {
            assert(replies.take(count)[at + 1] == replies[at + 1]);
        }
        scores_are_steady(replies, at + 2, count, game, state, updated_at_ms, index + 1);
    }
}

pub proof fn rebuilt_scores_are_steady(
    replies: Seq<Reply>,
    at: int,
    count: int,
    state: GameState,
    updated_at_ms: i64,
)
    requires
        0 <= at,
        0 <= count <= replies.len(),
    ensures
        steady(
            projections::rebuild_scores_run(Trace { replies, at }, state, updated_at_ms),
            projections::rebuild_scores_run(
                Trace { replies: replies.take(count), at },
                state,
                updated_at_ms,
            ),
            replies,
            at,
            count,
        ),
{
    let game = ids::id_text_of(state.metadata.id);
    if at < count {
        assert(replies.take(count)[at] == replies[at]);
    }
    scores_are_steady(replies, at + 1, count, game, state, updated_at_ms, 0);
    let written = projections::write_scores_run(
        Trace { replies, at: at + 1 },
        game,
        state,
        updated_at_ms,
        0,
    );
    rebuilt_totals_are_steady(replies, written.trace.at, count, updated_at_ms);
    rebuilt_totals_are_steady(replies, at + 1, count, updated_at_ms);
}

pub proof fn summary_is_steady(
    replies: Seq<Reply>,
    at: int,
    count: int,
    game: Seq<char>,
    state: GameState,
    events: Seq<&GameEvent>,
    updated_at_ms: i64,
)
    requires
        0 <= at,
        0 <= count <= replies.len(),
    ensures
        steady(
            projections::write_summary_run(
                Trace { replies, at },
                game,
                state,
                events,
                updated_at_ms,
            ),
            projections::write_summary_run(
                Trace { replies: replies.take(count), at },
                game,
                state,
                events,
                updated_at_ms,
            ),
            replies,
            at,
            count,
        ),
{
    if at < count {
        assert(replies.take(count)[at] == replies[at]);
    }
    if at + 1 < count {
        assert(replies.take(count)[at + 1] == replies[at + 1]);
    }
    if at + 2 < count {
        assert(replies.take(count)[at + 2] == replies[at + 2]);
    }
}

pub proof fn rest_is_steady(
    replies: Seq<Reply>,
    at: int,
    count: int,
    state: GameState,
    events: Seq<&GameEvent>,
    updated_at_ms: i64,
)
    requires
        0 <= at,
        0 <= count <= replies.len(),
    ensures
        steady(
            projections::rebuild_rest_run(Trace { replies, at }, state, events, updated_at_ms),
            projections::rebuild_rest_run(
                Trace { replies: replies.take(count), at },
                state,
                events,
                updated_at_ms,
            ),
            replies,
            at,
            count,
        ),
{
    let game = ids::id_text_of(state.metadata.id);
    let start = Trace { replies, at };
    summary_is_steady(replies, at, count, game, state, events, updated_at_ms);
    let summary = projections::write_summary_run(start, game, state, events, updated_at_ms);
    rebuilt_scores_are_steady(replies, summary.trace.at, count, state, updated_at_ms);
    let scores = projections::rebuild_scores_run(summary.trace, state, updated_at_ms);
    if 0 <= scores.trace.at < count {
        assert(replies.take(count)[scores.trace.at] == replies[scores.trace.at]);
    }
}

pub proof fn projecting_is_steady(
    replies: Seq<Reply>,
    at: int,
    count: int,
    state: GameState,
    events: Seq<&GameEvent>,
    updated_at_ms: i64,
)
    requires
        0 <= at,
        0 <= count <= replies.len(),
    ensures
        steady(
            projections::rebuild_game_run(Trace { replies, at }, state, events, updated_at_ms),
            projections::rebuild_game_run(
                Trace { replies: replies.take(count), at },
                state,
                events,
                updated_at_ms,
            ),
            replies,
            at,
            count,
        ),
        steady(
            projections::project_game_run(Trace { replies, at }, state, events, updated_at_ms),
            projections::project_game_run(
                Trace { replies: replies.take(count), at },
                state,
                events,
                updated_at_ms,
            ),
            replies,
            at,
            count,
        ),
{
    let game = ids::id_text_of(state.metadata.id);
    let before = (state.revision - events.len()) as u64;
    if at < count {
        assert(replies.take(count)[at] == replies[at]);
    }
    history_is_steady(replies, at + 1, count, game, before, events, updated_at_ms, 0);
    let history = projections::write_history_run(
        Trace { replies, at: at + 1 },
        game,
        before,
        events,
        updated_at_ms,
        0,
    );
    rest_is_steady(replies, history.trace.at, count, state, events, updated_at_ms);
}

proof fn seating_is_steady(
    replies: Seq<Reply>,
    at: int,
    count: int,
    game_id: GameId,
    players: Seq<PlayerId>,
    users: Seq<Seq<char>>,
    seat: int,
)
    requires
        0 <= at,
        0 <= count <= replies.len(),
    ensures
        steady(
            challenges::seat_users_run(Trace { replies, at }, game_id, players, users, seat),
            challenges::seat_users_run(
                Trace { replies: replies.take(count), at },
                game_id,
                players,
                users,
                seat,
            ),
            replies,
            at,
            count,
        ),
    decreases users.len() - seat,
{
    if seat < users.len() {
        if at < count {
            assert(replies.take(count)[at] == replies[at]);
        }
        seating_is_steady(replies, at + 1, count, game_id, players, users, seat + 1);
    }
}

proof fn recording_is_steady(
    replies: Seq<Reply>,
    at: int,
    count: int,
    game_id: GameId,
    key: Seq<char>,
    started: GameEvent,
)
    requires
        0 <= at,
        0 <= count <= replies.len(),
    ensures
        steady(
            challenges::record_start_run(Trace { replies, at }, game_id, key, started),
            challenges::record_start_run(
                Trace { replies: replies.take(count), at },
                game_id,
                key,
                started,
            ),
            replies,
            at,
            count,
        ),
{
    if at < count {
        assert(replies.take(count)[at] == replies[at]);
    }
    if at + 1 < count {
        assert(replies.take(count)[at + 1] == replies[at + 1]);
    }
    if at + 2 < count {
        assert(replies.take(count)[at + 2] == replies[at + 2]);
    }
}

proof fn start_is_steady(
    replies: Seq<Reply>,
    at: int,
    count: int,
    game_id: GameId,
    started: GameEvent,
    seats: int,
    now_ms: i64,
)
    requires
        0 <= at,
        0 <= count <= replies.len(),
    ensures
        steady(
            challenges::project_start_run(Trace { replies, at }, game_id, started, seats, now_ms),
            challenges::project_start_run(
                Trace { replies: replies.take(count), at },
                game_id,
                started,
                seats,
                now_ms,
            ),
            replies,
            at,
            count,
        ),
{
    if at < replies.len() {
        if at < count {
            assert(replies.take(count)[at] == replies[at]);
        }
        if at + 1 < count {
            assert(replies.take(count)[at + 1] == replies[at + 1]);
        }
        if let Some(state) = script::reply_state(replies[at]) {
            loading_is_steady(replies, at + 2, count, game_id, 0);
            let loaded = journal::load_events_run(Trace { replies, at: at + 2 }, game_id, 0);
            if let Outcome::Done(records) = loaded.outcome {
                projecting_is_steady(
                    replies,
                    loaded.trace.at,
                    count,
                    state,
                    journal::event_refs(records),
                    now_ms,
                );
            }
        }
    }
}

proof fn dealing_is_steady(
    replies: Seq<Reply>,
    at: int,
    count: int,
    creation: CreationView,
    game_id: GameId,
    players: Seq<PlayerId>,
)
    requires
        0 <= at,
        0 <= count <= replies.len(),
    ensures
        steady(
            challenges::deal_game_run(Trace { replies, at }, creation, game_id, players),
            challenges::deal_game_run(
                Trace { replies: replies.take(count), at },
                creation,
                game_id,
                players,
            ),
            replies,
            at,
            count,
        ),
{
    if at < replies.len() {
        if at < count {
            assert(replies.take(count)[at] == replies[at]);
        }
        if at + 1 < count {
            assert(replies.take(count)[at + 1] == replies[at + 1]);
        }
        if let (Some(started), Some(now_ms)) = (
            script::reply_event(replies[at]),
            game::millis_at(creation.now),
        ) {
            seating_is_steady(replies, at + 2, count, game_id, players, creation.users, 0);
            let seated = challenges::seat_users_run(
                Trace { replies, at: at + 2 },
                game_id,
                players,
                creation.users,
                0,
            );
            recording_is_steady(
                replies,
                seated.trace.at,
                count,
                game_id,
                creation.key,
                started,
            );
            let recorded = challenges::record_start_run(
                seated.trace,
                game_id,
                creation.key,
                started,
            );
            start_is_steady(
                replies,
                recorded.trace.at,
                count,
                game_id,
                started,
                creation.users.len() as int,
                now_ms,
            );
        }
    }
}

pub proof fn creating_is_steady(
    replies: Seq<Reply>,
    at: int,
    count: int,
    creation: CreationView,
)
    requires
        0 <= at,
        0 <= count <= replies.len(),
    ensures
        steady(
            challenges::create_game_run(Trace { replies, at }, creation),
            challenges::create_game_run(Trace { replies: replies.take(count), at }, creation),
            replies,
            at,
            count,
        ),
{
    if challenges::valid_seating(creation.users, creation.first) {
        if at < count {
            assert(replies.take(count)[at] == replies[at]);
        }
        if at + 1 < count {
            assert(replies.take(count)[at + 1] == replies[at + 1]);
        }
        if at + 2 < count {
            assert(replies.take(count)[at + 2] == replies[at + 2]);
        }
        if at + 1 < replies.len() {
            if let (Reply::Ids(game), Reply::Ids(players)) = (replies[at], replies[at + 1]) {
                dealing_is_steady(replies, at + 3, count, creation, game@[0], players@);
            }
        }
    }
}

pub proof fn appending_is_steady(
    replies: Seq<Reply>,
    at: int,
    count: int,
    command: CommandView,
    events: Seq<&GameEvent>,
)
    requires
        0 <= at,
        0 <= count <= replies.len(),
    ensures
        steady(
            journal::append_events_run(Trace { replies, at }, command, events),
            journal::append_events_run(Trace { replies: replies.take(count), at }, command, events),
            replies,
            at,
            count,
        ),
{
    if at < count {
        assert(replies.take(count)[at] == replies[at]);
    }
    if at + 1 < count {
        assert(replies.take(count)[at + 1] == replies[at + 1]);
    }
    if at + 2 < count {
        assert(replies.take(count)[at + 2] == replies[at + 2]);
    }
    inserting_is_steady(replies, at + 3, count, command, events, 0);
    let inserted = journal::insert_events_run(Trace { replies, at: at + 3 }, command, events, 0);
    let end = inserted.trace.at;
    if end < count {
        assert(replies.take(count)[end] == replies[end]);
    }
    if end + 1 < count {
        assert(replies.take(count)[end + 1] == replies[end + 1]);
    }
}

pub proof fn storing_is_steady(
    replies: Seq<Reply>,
    at: int,
    count: int,
    game_id: GameId,
    state: GameState,
    created_at_ms: i64,
)
    requires
        0 <= at,
        0 <= count <= replies.len(),
    ensures
        steady(
            journal::store_snapshot_run(Trace { replies, at }, game_id, state, created_at_ms),
            journal::store_snapshot_run(Trace { replies: replies.take(count), at }, game_id, state, created_at_ms),
            replies,
            at,
            count,
        ),
{
    if at < count {
        assert(replies.take(count)[at] == replies[at]);
    }
    if at + 1 < count {
        assert(replies.take(count)[at + 1] == replies[at + 1]);
    }
    if at + 2 < count {
        assert(replies.take(count)[at + 2] == replies[at + 2]);
    }
}

proof fn rebuilding_is_steady(
    replies: Seq<Reply>,
    at: int,
    count: int,
    submission: SubmissionView,
    state: GameState,
)
    requires
        0 <= at,
        0 <= count <= replies.len(),
    ensures
        steady(
            game_service::project_run(Trace { replies, at }, submission, state),
            game_service::project_run(Trace { replies: replies.take(count), at }, submission, state),
            replies,
            at,
            count,
        ),
{
    loading_is_steady(replies, at, count, submission.game_id, 0);
    let loaded = journal::load_events_run(Trace { replies, at }, submission.game_id, 0);
    if let Outcome::Done(records) = loaded.outcome {
        projecting_is_steady(
            replies,
            loaded.trace.at,
            count,
            state,
            journal::event_refs(records),
            submission.updated_at_ms,
        );
    }
}

proof fn persisting_is_steady(
    replies: Seq<Reply>,
    at: int,
    count: int,
    submission: SubmissionView,
    current: GameState,
    events: Seq<GameEvent>,
)
    requires
        0 <= at,
        0 <= count <= replies.len(),
    ensures
        steady(
            game_service::persist_run(Trace { replies, at }, submission, current, events),
            game_service::persist_run(Trace { replies: replies.take(count), at }, submission, current, events),
            replies,
            at,
            count,
        ),
{
    let command = CommandView {
        game_id: submission.game_id,
        command_id: submission.command_id,
        idempotency_key: submission.idempotency_key,
        expected_revision: submission.expected_revision,
    };
    let refs = game_service::refs(events);
    appending_is_steady(replies, at, count, command, refs);
    let appended = journal::append_events_run(Trace { replies, at }, command, refs);
    applying_is_steady(replies, appended.trace.at, count, Some(current), events, 0);
    let applied = journal::apply_events_run(appended.trace, Some(current), events, 0);
    if let Outcome::Done(state) = applied.outcome {
        storing_is_steady(
            replies,
            applied.trace.at,
            count,
            submission.game_id,
            state->0,
            submission.updated_at_ms,
        );
        let stored = journal::store_snapshot_run(
            applied.trace,
            submission.game_id,
            state->0,
            submission.updated_at_ms,
        );
        rebuilding_is_steady(replies, stored.trace.at, count, submission, state->0);
    }
}

proof fn deciding_is_steady(
    replies: Seq<Reply>,
    at: int,
    count: int,
    submission: SubmissionView,
    actor: PlayerId,
    current: GameState,
)
    requires
        0 <= at,
        0 <= count <= replies.len(),
    ensures
        steady(
            game_service::decide_run(Trace { replies, at }, submission, actor, current),
            game_service::decide_run(Trace { replies: replies.take(count), at }, submission, actor, current),
            replies,
            at,
            count,
        ),
{
    if at < count {
        assert(replies.take(count)[at] == replies[at]);
    }
    if at + 1 < count {
        assert(replies.take(count)[at + 1] == replies[at + 1]);
    }
    if at + 1 < replies.len() {
        if let Some(events) = script::reply_events(replies[at + 1]) {
            persisting_is_steady(replies, at + 2, count, submission, current, events);
        }
    }
}

pub proof fn submitting_is_steady(
    replies: Seq<Reply>,
    at: int,
    count: int,
    submission: SubmissionView,
)
    requires
        0 <= at,
        0 <= count <= replies.len(),
    ensures
        steady(
            game_service::submit_run(Trace { replies, at }, submission),
            game_service::submit_run(Trace { replies: replies.take(count), at }, submission),
            replies,
            at,
            count,
        ),
{
    if at < count {
        assert(replies.take(count)[at] == replies[at]);
    }
    recovery_is_steady(replies, at + 1, count, submission.game_id);
    let seated = game_service::player_for_user_run(
        Trace { replies, at },
        submission.game_id,
        submission.user_id,
    );
    let recovered = journal::recover_game_run(
        Trace { replies, at: at + 1 },
        submission.game_id,
    );
    if let (Outcome::Done(actor), Outcome::Done(current)) = (
        seated.outcome,
        recovered.outcome,
    ) {
        deciding_is_steady(replies, recovered.trace.at, count, submission, actor, current);
    }
}

pub proof fn linking_is_steady(
    replies: Seq<Reply>,
    at: int,
    count: int,
    user_id: Seq<char>,
    identity: IdentityView,
    now: Timestamp,
)
    requires
        0 <= at,
        0 <= count <= replies.len(),
    ensures
        steady(
            external_identities::link_run(Trace { replies, at }, user_id, identity, now),
            external_identities::link_run(Trace { replies: replies.take(count), at }, user_id, identity, now),
            replies,
            at,
            count,
        ),
{
    if at < count {
        assert(replies.take(count)[at] == replies[at]);
    }
    if at + 1 < count {
        assert(replies.take(count)[at + 1] == replies[at + 1]);
    }
    if at + 2 < count {
        assert(replies.take(count)[at + 2] == replies[at + 2]);
    }
    if at + 3 < count {
        assert(replies.take(count)[at + 3] == replies[at + 3]);
    }
    if at + 4 < count {
        assert(replies.take(count)[at + 4] == replies[at + 4]);
    }
}

pub proof fn migrating_is_steady(
    replies: Seq<Reply>,
    at: int,
    count: int,
    user_id: Seq<char>,
    identity: IdentityView,
    now: Timestamp,
    lifetime: Span,
)
    requires
        0 <= at,
        0 <= count <= replies.len(),
    ensures
        steady(
            google_accounts::migrate_run(Trace { replies, at }, user_id, identity, now, lifetime),
            google_accounts::migrate_run(Trace { replies: replies.take(count), at }, user_id, identity, now, lifetime),
            replies,
            at,
            count,
        ),
{
    linking_is_steady(replies, at, count, user_id, identity, now);
    let linked = external_identities::link_run(Trace { replies, at }, user_id, identity, now);
    let end = linked.trace.at;
    if end < count {
        assert(replies.take(count)[end] == replies[end]);
    }
    if end + 1 < count {
        assert(replies.take(count)[end + 1] == replies[end + 1]);
    }
    if end + 2 < count {
        assert(replies.take(count)[end + 2] == replies[end + 2]);
    }
}

} // verus!
