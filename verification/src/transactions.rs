//! Transactions that end in an error leave the store as it was.
//!
//! Every law speaks of workflows whose replies a store of [`crate::model`] gives.
use crate::external_identities::{self, ExternalIdentityError, IdentityView};
use crate::frames;
use crate::game::{GameEvent, GameId, GameState, Span, Timestamp};
use crate::game_service::{self, GameServiceError, SubmissionView};
use crate::google_accounts::{self, GoogleAccountWorkflowError};
use crate::ids;
use crate::journal::{self, CommandView, JournalError};
use crate::model::{self, Store, Workflow};
use crate::script::{self, Ask, Outcome, Reply, Trace};
use crate::steady;
use crate::store::{Datum, Op, Verb};
use vstd::prelude::*;

verus! {

/// One transaction as a workflow.
pub open spec fn transacting<T, E>(body: Workflow<T, E>) -> Workflow<T, E> {
    |trace: Trace| script::transaction(trace, body)
}

/// Whether a request neither begins nor ends a transaction.
pub open spec fn plain(ask: Ask) -> bool {
    match ask {
        Ask::Store(op) => op.verb != Verb::Begin && op.verb != Verb::Commit && op.verb
            != Verb::Rollback,
        _ => true,
    }
}

/// Whether a body that started behind the first reply depends on the first `count` replies alone
/// when it ends on them, and begins and ends no transaction of its own.
pub open spec fn orderly_at<T, E>(
    body: Workflow<T, E>,
    replies: Seq<Reply>,
    count: int,
) -> bool {
    let cut = body(Trace { replies: replies.take(count), at: 1 });
    &&& steady::steady(body(Trace { replies, at: 1 }), cut, replies, 1, count)
    &&& cut.outcome matches Outcome::Wait(ask) ==> plain(ask)
}

pub open spec fn orderly<T, E>(body: Workflow<T, E>, replies: Seq<Reply>) -> bool {
    forall|count: int|
        1 <= count <= replies.len() ==> #[trigger] orderly_at(body, replies, count)
}

/// While a body runs, the store keeps what its transaction returns to.
proof fn saved_tables_stay<T, E>(
    body: Workflow<T, E>,
    replies: Seq<Reply>,
    store: Store,
    place: int,
)
    requires
        replies.len() > 0,
        orderly(body, replies),
        model::served(transacting(body), replies, store),
        1 <= place <= replies.len(),
        place <= body(Trace { replies, at: 1 }).trace.at,
        !(body(Trace { replies, at: 1 }).outcome is Wait),
    ensures
        model::store_at(transacting(body), replies, store, place).saved == Some(store.tables),
    decreases place,
{
    let workflow = transacting(body);
    assert(model::asked(workflow, replies, 0) == Some(Ask::Store(Op::begin())));
    assert(model::served_at(workflow, replies, store, 0));
    if place == 1 {
        assert(model::store_at(workflow, replies, store, 0) == store);
    } else {
        saved_tables_stay(body, replies, store, place - 1);
        assert(replies.take(place - 1)[0] == replies[0]);
        assert(orderly_at(body, replies, place - 1));
        let cut = body(Trace { replies: replies.take(place - 1), at: 1 });
        assert(cut.outcome is Wait);
        assert(model::asked(workflow, replies, place - 1) == Some(cut.outcome->Wait_0));
    }
}

/// A transaction that ends in an error leaves every table as it was.
pub proof fn failed_transactions_change_nothing<T, E>(
    body: Workflow<T, E>,
    replies: Seq<Reply>,
    store: Store,
)
    requires
        orderly(body, replies),
        model::served(transacting(body), replies, store),
        !(model::ending(transacting(body), replies) is Wait),
        !(model::ending(transacting(body), replies) is Done),
    ensures
        model::store_after(transacting(body), replies, store).tables == store.tables,
{
    let workflow = transacting(body);
    let full = body(Trace { replies, at: 1 });
    assert(model::asked(workflow, replies, 0) == Some(Ask::Store(Op::begin())));
    assert(replies.len() > 0);
    assert(model::served_at(workflow, replies, store, 0));
    assert(orderly_at(body, replies, replies.len() as int));
    assert(replies.take(replies.len() as int) =~= replies);
    let end = full.trace.at;
    assert(1 <= end < replies.len());
    assert(orderly_at(body, replies, end));
    assert(replies.take(end)[0] == replies[0]);
    saved_tables_stay(body, replies, store, end);
    assert(model::served_at(workflow, replies, store, end));
    assert(model::asked(workflow, replies, end) == Some(Ask::Store(Op::rollback())));
    assert(model::store_at(workflow, replies, store, end + 1).tables == store.tables);
    if replies.len() > end + 1 {
        assert(orderly_at(body, replies, end + 1));
        assert(replies.take(end + 1)[0] == replies[0]);
        assert(replies.take(end + 1)[end] == replies[end]);
        assert(model::served_at(workflow, replies, store, end + 1));
    }
}

/// Appending the events of a command.
pub open spec fn appending(command: CommandView, events: Seq<&GameEvent>) -> Workflow<
    u64,
    JournalError,
> {
    |trace: Trace| journal::append_events_run(trace, command, events)
}

proof fn insertions_keep(
    trace: Trace,
    command: CommandView,
    events: Seq<&GameEvent>,
    index: int,
)
    ensures
        frames::keeps_to_games(journal::insert_events_run(trace, command, events, index)),
    decreases events.len() - index,
{
    if index < events.len() {
        insertions_keep(trace.next().next(), command, events, index + 1);
    }
}

proof fn appending_keeps(trace: Trace, command: CommandView, events: Seq<&GameEvent>)
    ensures
        frames::keeps_to_games(journal::append_events_run(trace, command, events)),
{
    insertions_keep(trace.next().next().next(), command, events, 0);
}

proof fn appending_is_orderly(command: CommandView, events: Seq<&GameEvent>, replies: Seq<Reply>)
    ensures
        orderly(appending(command, events), replies),
{
    let body = appending(command, events);
    assert forall|count: int| 1 <= count <= replies.len() implies #[trigger] orderly_at(
        body,
        replies,
        count,
    ) by {
        steady::appending_is_steady(replies, 1, count, command, events);
        appending_keeps(Trace { replies: replies.take(count), at: 1 }, command, events);
    }
}

/// A command that the journal refuses leaves every table as it was.
pub proof fn refused_appends_change_nothing(
    command: CommandView,
    events: Seq<&GameEvent>,
    replies: Seq<Reply>,
    store: Store,
    error: JournalError,
)
    requires
        model::served(transacting(appending(command, events)), replies, store),
        model::ending(transacting(appending(command, events)), replies) == Outcome::<
            u64,
            JournalError,
        >::Fail(error),
    ensures
        model::store_after(transacting(appending(command, events)), replies, store).tables
            == store.tables,
{
    appending_is_orderly(command, events, replies);
    failed_transactions_change_nothing(appending(command, events), replies, store);
}

/// Submitting a game command.
pub open spec fn submitting(submission: SubmissionView) -> Workflow<GameState, GameServiceError> {
    |trace: Trace| game_service::submit_run(trace, submission)
}

proof fn applying_keeps(
    trace: Trace,
    state: Option<GameState>,
    events: Seq<GameEvent>,
    index: int,
)
    ensures
        frames::keeps_to_games(journal::apply_events_run(trace, state, events, index)),
    decreases events.len() - index,
{
    if index < events.len() && !trace.spent() {
        if let Some(next) = script::reply_state(trace.reply()) {
            applying_keeps(trace.next(), Some(next), events, index + 1);
        }
    }
}

proof fn recovery_keeps(trace: Trace, game_id: GameId)
    ensures
        frames::keeps_to_games(journal::recover_game_run(trace, game_id)),
{
    let first = journal::load_latest_snapshot_run(trace, game_id);
    if let Outcome::Done(snapshot) = first.outcome {
        let after = match snapshot {
            Some(state) => state.revision,
            None => 0,
        };
        frames::loading_keeps(first.trace, game_id, after);
        let second = journal::load_events_run(first.trace, game_id, after);
        if let Outcome::Done(tail) = second.outcome {
            applying_keeps(second.trace, snapshot, journal::record_events(tail), 0);
        }
    }
}

proof fn projecting_keeps(trace: Trace, submission: SubmissionView, state: GameState)
    ensures
        frames::keeps_to_games(game_service::project_run(trace, submission, state)),
{
    frames::loading_keeps(trace, submission.game_id, 0);
    let loaded = journal::load_events_run(trace, submission.game_id, 0);
    if let Outcome::Done(records) = loaded.outcome {
        frames::projections_keep(
            loaded.trace,
            state,
            journal::event_refs(records),
            submission.updated_at_ms,
        );
    }
}

proof fn persisting_keeps(
    trace: Trace,
    submission: SubmissionView,
    current: GameState,
    events: Seq<GameEvent>,
)
    ensures
        frames::keeps_to_games(game_service::persist_run(trace, submission, current, events)),
{
    let command = CommandView {
        game_id: submission.game_id,
        command_id: submission.command_id,
        idempotency_key: submission.idempotency_key,
        expected_revision: submission.expected_revision,
    };
    appending_keeps(trace, command, game_service::refs(events));
    let appended = journal::append_events_run(trace, command, game_service::refs(events));
    applying_keeps(appended.trace, Some(current), events, 0);
    let applied = journal::apply_events_run(appended.trace, Some(current), events, 0);
    if let Outcome::Done(state) = applied.outcome {
        let stored = journal::store_snapshot_run(
            applied.trace,
            submission.game_id,
            state->0,
            submission.updated_at_ms,
        );
        projecting_keeps(stored.trace, submission, state->0);
    }
}

proof fn submitting_keeps(trace: Trace, submission: SubmissionView)
    ensures
        frames::keeps_to_games(game_service::submit_run(trace, submission)),
{
    recovery_keeps(trace.next(), submission.game_id);
    let recovered = journal::recover_game_run(trace.next(), submission.game_id);
    if let Outcome::Done(current) = recovered.outcome {
        let deciding = recovered.trace.next();
        if !deciding.spent() {
            if let Some(events) = script::reply_events(deciding.reply()) {
                persisting_keeps(deciding.next(), submission, current, events);
            }
        }
    }
}

/// A command that is refused, for whatever reason, leaves every table as it was.
pub proof fn refused_commands_change_nothing(
    submission: SubmissionView,
    replies: Seq<Reply>,
    store: Store,
    error: GameServiceError,
)
    requires
        model::served(transacting(submitting(submission)), replies, store),
        model::ending(transacting(submitting(submission)), replies) == Outcome::<
            GameState,
            GameServiceError,
        >::Fail(error),
    ensures
        model::store_after(transacting(submitting(submission)), replies, store).tables
            == store.tables,
{
    let body = submitting(submission);
    assert forall|count: int| 1 <= count <= replies.len() implies #[trigger] orderly_at(
        body,
        replies,
        count,
    ) by {
        steady::submitting_is_steady(replies, 1, count, submission);
        submitting_keeps(Trace { replies: replies.take(count), at: 1 }, submission);
    }
    failed_transactions_change_nothing(body, replies, store);
}

/// Whoever is not seated in a game cannot submit a command to it.
pub proof fn strangers_cannot_submit(
    submission: SubmissionView,
    replies: Seq<Reply>,
    store: Store,
)
    requires
        forall|i: int|
            0 <= i < store.rows("game_players"@).len() ==> !(model::datum_in(
                #[trigger] store.rows("game_players"@)[i],
                "game_id"@,
            ) == Datum::Text(ids::id_text_of(submission.game_id)) && model::datum_in(
                store.rows("game_players"@)[i],
                "user_id"@,
            ) == Datum::Text(submission.user_id)),
        model::served(transacting(submitting(submission)), replies, store),
        !(model::ending(transacting(submitting(submission)), replies) is Wait),
    ensures
        model::ending(transacting(submitting(submission)), replies) == Outcome::<
            GameState,
            GameServiceError,
        >::Fail(GameServiceError::Unauthorized),
        model::store_after(transacting(submitting(submission)), replies, store).tables
            == store.tables,
{
    let workflow = transacting(submitting(submission));
    let op = Op::select("game_players"@).where_text(
        "game_id"@,
        ids::id_text_of(submission.game_id),
    ).where_text("user_id"@, submission.user_id);
    let begun = model::executed(store, Op::begin()).0;
    let rows = store.rows("game_players"@);
    assert(replies =~= replies.take(replies.len() as int));
    assert(model::asked(workflow, replies, 0) == Some(Ask::Store(Op::begin())));
    assert(model::served_at(workflow, replies, store, 0));
    assert(replies.take(1)[0] == replies[0]);
    assert(model::asked(workflow, replies, 1) == Some(Ask::Store(op)));
    assert(model::store_at(workflow, replies, store, 1) == begun);
    assert(model::served_at(workflow, replies, store, 1));
    assert(begun.rows("game_players"@) == rows);
    model::found_rows(rows, op.filters);
    if model::found(rows, op.filters).len() > 0 {
        let i = choose|i: int|
            0 <= i < rows.len() && model::meets_all(#[trigger] rows[i], op.filters);
        assert(model::meets(rows[i], op.filters[0]));
        assert(model::meets(rows[i], op.filters[1]));
    }
    assert(replies.len() > 2);
    assert(replies.take(2)[0] == replies[0]);
    assert(replies.take(2)[1] == replies[1]);
    assert(model::asked(workflow, replies, 2) == Some(Ask::Store(Op::rollback())));
    assert(model::served_at(workflow, replies, store, 2));
    refused_commands_change_nothing(submission, replies, store, GameServiceError::Unauthorized);
}

/// Linking a verified identity to a user.
pub open spec fn linking(user_id: Seq<char>, identity: IdentityView, now: Timestamp) -> Workflow<
    (),
    ExternalIdentityError,
> {
    |trace: Trace| external_identities::link_run(trace, user_id, identity, now)
}

/// An identity that is not linked leaves every table as it was.
pub proof fn refused_links_change_nothing(
    user_id: Seq<char>,
    identity: IdentityView,
    now: Timestamp,
    replies: Seq<Reply>,
    store: Store,
    error: ExternalIdentityError,
)
    requires
        model::served(transacting(linking(user_id, identity, now)), replies, store),
        model::ending(transacting(linking(user_id, identity, now)), replies) == Outcome::<
            (),
            ExternalIdentityError,
        >::Fail(error),
    ensures
        model::store_after(transacting(linking(user_id, identity, now)), replies, store).tables
            == store.tables,
{
    let body = linking(user_id, identity, now);
    assert forall|count: int| 1 <= count <= replies.len() implies #[trigger] orderly_at(
        body,
        replies,
        count,
    ) by {
        steady::linking_is_steady(replies, 1, count, user_id, identity, now);
    }
    failed_transactions_change_nothing(body, replies, store);
}

/// Moving a password account to a verified identity.
pub open spec fn migrating(
    user_id: Seq<char>,
    identity: IdentityView,
    now: Timestamp,
    lifetime: Span,
) -> Workflow<Seq<char>, GoogleAccountWorkflowError> {
    |trace: Trace| google_accounts::migrate_run(trace, user_id, identity, now, lifetime)
}

/// A migration that fails keeps the password, the sessions and everything else.
pub proof fn refused_migrations_change_nothing(
    user_id: Seq<char>,
    identity: IdentityView,
    now: Timestamp,
    lifetime: Span,
    replies: Seq<Reply>,
    store: Store,
    error: GoogleAccountWorkflowError,
)
    requires
        model::served(transacting(migrating(user_id, identity, now, lifetime)), replies, store),
        model::ending(transacting(migrating(user_id, identity, now, lifetime)), replies)
            == Outcome::<Seq<char>, GoogleAccountWorkflowError>::Fail(error),
    ensures
        model::store_after(
            transacting(migrating(user_id, identity, now, lifetime)),
            replies,
            store,
        ).tables == store.tables,
{
    let body = migrating(user_id, identity, now, lifetime);
    assert forall|count: int| 1 <= count <= replies.len() implies #[trigger] orderly_at(
        body,
        replies,
        count,
    ) by {
        steady::migrating_is_steady(replies, 1, count, user_id, identity, now, lifetime);
    }
    failed_transactions_change_nothing(body, replies, store);
}

} // verus!
