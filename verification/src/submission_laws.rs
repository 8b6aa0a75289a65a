//! What a submitted command leaves behind: its record, and projections of the game's whole journal.
use crate::append_laws;
use crate::frames;
use crate::game::{GameCommand, GameEvent, GameId, GameState, PlayerId};
use crate::game_service::{self, GameServiceError, SubmissionView};
use crate::ids;
use crate::journal::{self, CommandView, EventRecord, JournalError};
use crate::journal_laws::{self, Engine};
use crate::model::{self, Record, Store, Workflow};
use crate::outcome_laws;
use crate::projection_laws;
use crate::projections::{self, ProjectionError};
use crate::recovery_laws::{self, EventReader};
use crate::script::{self, Ask, Outcome, Reply, Run, Trace};
use crate::snapshot_laws;
use crate::stages;
use crate::steady;
use crate::store::{self, Datum, Direction, Op, Relation, Row};
use crate::transactions;
use vstd::prelude::*;

verus! {

/// What the rules of a game decide: the events of a player's command in a state.
pub type Decisions = spec_fn(GameState, PlayerId, GameCommand) -> Seq<GameEvent>;

/// What stands outside of a submission.
pub struct Outside {
    /// The events that texts stand for.
    pub event_of: EventReader,
    /// What the rules decide.
    pub decisions: Decisions,
    /// What the rules make of a state by applying an event.
    pub engine: Engine,
}

/// Wherever a text is read, a command decided or an event applied, it is as it is outside.
pub open spec fn answered_by(outside: Outside) -> spec_fn(Ask, Reply) -> bool {
    |ask: Ask, reply: Reply|
        match ask {
            Ask::DecodeEvent(version, payload) => script::reply_event(reply) matches Some(event)
                ==> event == (outside.event_of)(version, payload),
            Ask::Decide(state, actor, command) => script::reply_events(reply) matches Some(events)
                ==> events == (outside.decisions)(state, actor, command),
            Ask::Apply(state, event) => script::reply_state(reply) matches Some(next) ==> next == (
            outside.engine)(state, event),
            _ => true,
        }
}

/// The journal rows of a game, from its first revision on, by revision.
pub open spec fn journal_rows(store: Store, game_id: GameId) -> Seq<Record> {
    model::sorted(
        model::found(
            store.rows("game_journal"@),
            seq![
                ("game_id"@, Relation::Equal, Datum::Text(ids::id_text_of(game_id))),
                ("revision"@, Relation::Greater, Datum::Integer(0)),
            ],
        ),
        Some(("revision"@, Direction::Ascending)),
    )
}

/// The event that a journal row holds.
pub open spec fn event_in(record: Record, event_of: EventReader) -> GameEvent {
    match (model::datum_in(record, "payload_version"@), model::datum_in(record, "payload"@)) {
        (Datum::Integer(version), Datum::Text(payload)) => event_of(version as u64, payload),
        _ => arbitrary(),
    }
}

/// The events of a game's whole journal.
pub open spec fn journaled(store: Store, game_id: GameId, event_of: EventReader) -> Seq<
    GameEvent,
> {
    Seq::new(
        journal_rows(store, game_id).len(),
        |i: int| event_in(journal_rows(store, game_id)[i], event_of),
    )
}

spec fn reading(game_id: GameId, rows: Seq<Row>, index: int, read: Seq<EventRecord>) -> Workflow<
    Seq<EventRecord>,
    JournalError,
> {
    |trace: Trace| journal::journal_rows_run(trace, game_id, rows, index, read)
}

spec fn after_row(game_id: GameId, rows: Seq<Row>, index: int, read: Seq<EventRecord>) -> spec_fn(
    Reply,
    Trace,
) -> Run<Seq<EventRecord>, JournalError> {
    |reply: Reply, trace: Trace|
        match reply {
            Reply::Refused(reason) => script::fail(trace, JournalError::Serialization(reason)),
            reply => match script::reply_event(reply) {
                Some(event) => journal::journal_rows_run(
                    trace,
                    game_id,
                    rows,
                    index + 1,
                    read.push(
                        EventRecord {
                            game_id,
                            revision: store::unsigned_of(rows[index].integer_at("revision"@))->0,
                            command_id: rows[index].text_at("command_id"@)->0,
                            idempotency_key: rows[index].text_at("idempotency_key"@)->0,
                            payload_version: store::unsigned_of(
                                rows[index].integer_at("payload_version"@),
                            )->0 as u32,
                            event,
                        },
                    ),
                ),
                None => Run { outcome: Outcome::Mismatch(trace.at - 1), trace },
            },
        }
}

/// Rows are read as the events that they hold, and reading them writes nothing.
proof fn rows_are_read(
    game_id: GameId,
    rows: Seq<Row>,
    records: Seq<Record>,
    index: int,
    read: Seq<EventRecord>,
    outside: Outside,
    replies: Seq<Reply>,
    from: int,
    store: Store,
    place: int,
)
    requires
        model::all_shown(rows, records),
        0 <= index <= rows.len(),
        read.len() == index,
        forall|i: int|
            0 <= i < index ==> (#[trigger] read[i]).event == event_in(records[i], outside.event_of),
        stages::underway(
            reading(game_id, rows, index, read),
            replies,
            from,
            store,
            answered_by(outside),
        ),
        reading(game_id, rows, index, read)(Trace { replies, at: from }).outcome is Done,
        reading(game_id, rows, index, read)(Trace { replies, at: from }).trace.at <= place
            <= replies.len(),
    ensures
        ({
            let run = reading(game_id, rows, index, read)(Trace { replies, at: from });
            let loaded = run.outcome->Done_0;
            &&& from <= run.trace.at
            &&& loaded.len() == rows.len()
            &&& forall|i: int|
                0 <= i < loaded.len() ==> (#[trigger] loaded[i]).event == event_in(
                    records[i],
                    outside.event_of,
                )
            &&& stages::stage_store(
                reading(game_id, rows, index, read),
                replies,
                from,
                store,
                place,
            ) == store
        }),
    decreases rows.len() - index,
{
    let fits = answered_by(outside);
    let stage = reading(game_id, rows, index, read);
    if index < rows.len() {
        let row = rows[index];
        let record = records[index];
        assert(model::shows(rows[index], records[index]));
        model::shown_values(row, record, "payload_version"@);
        model::shown_values(row, record, "payload"@);
        let version = store::unsigned_of(row.integer_at("payload_version"@))->0;
        let ask = Ask::DecodeEvent(version, row.text_at("payload"@)->0);
        let rest = after_row(game_id, rows, index, read);
        assert forall|trace: Trace| #[trigger] stage(trace) == (if trace.spent() {
            Run { outcome: Outcome::Wait(ask), trace }
        } else {
            rest(trace.reply(), trace.next())
        }) by {}
        stages::asks_outside(stage, ask, rest, replies, from, store, fits);
        let event = EventRecord {
            game_id,
            revision: store::unsigned_of(row.integer_at("revision"@))->0,
            command_id: row.text_at("command_id"@)->0,
            idempotency_key: row.text_at("idempotency_key"@)->0,
            payload_version: version as u32,
            event: script::reply_event(replies[from])->0,
        };
        let second: Workflow<Seq<EventRecord>, JournalError> = |trace: Trace|
            rest(replies[from], trace);
        let next = reading(game_id, rows, index + 1, read.push(event));
        assert forall|trace: Trace| #[trigger] second(trace) == next(trace) by {}
        stages::same_underway(second, next, replies, from + 1, store, fits);
        assert(second =~= next);
        rows_are_read(
            game_id,
            rows,
            records,
            index + 1,
            read.push(event),
            outside,
            replies,
            from + 1,
            store,
            place,
        );
    } else {
        stages::nothing_more(stage, replies, from, store, place);
    }
}

/// The whole journal is loaded as the events that it holds, and loading it writes nothing.
proof fn journal_is_loaded(
    game_id: GameId,
    outside: Outside,
    replies: Seq<Reply>,
    from: int,
    store: Store,
    place: int,
)
    requires
        stages::underway(
            journal_laws::loading(game_id, 0),
            replies,
            from,
            store,
            answered_by(outside),
        ),
        journal_laws::loading(game_id, 0)(Trace { replies, at: from }).outcome is Done,
        journal_laws::loading(game_id, 0)(Trace { replies, at: from }).trace.at <= place
            <= replies.len(),
    ensures
        ({
            let loaded = journal_laws::loading(game_id, 0)(
                Trace { replies, at: from },
            ).outcome->Done_0;
            &&& journal::record_events(loaded) == journaled(store, game_id, outside.event_of)
            &&& stages::stage_store(
                journal_laws::loading(game_id, 0),
                replies,
                from,
                store,
                place,
            ) == store
        }),
{
    let fits = answered_by(outside);
    let stage = journal_laws::loading(game_id, 0);
    let op = journal_laws::journal_op(game_id, 0);
    let rest = |rows: Seq<Row>, trace: Trace|
        journal::journal_rows_run(trace, game_id, rows, 0, Seq::empty());
    assert forall|trace: Trace| #[trigger] stage(trace) == script::query(trace, op, rest) by {}
    let rows = stages::asks_store(stage, op, rest, replies, from, store, fits);
    let records = journal_rows(store, game_id);
    assert(op.filters =~= seq![
        ("game_id"@, Relation::Equal, Datum::Text(ids::id_text_of(game_id))),
        ("revision"@, Relation::Greater, Datum::Integer(0)),
    ]);
    assert(model::executed(store, op).1 == records);
    let second: Workflow<Seq<EventRecord>, JournalError> = |trace: Trace| rest(rows, trace);
    let next = reading(game_id, rows, 0, Seq::empty());
    assert(second =~= next);
    assert(stage(Trace { replies, at: from }) == next(Trace { replies, at: from + 1 }));
    rows_are_read(
        game_id,
        rows,
        records,
        0,
        Seq::empty(),
        outside,
        replies,
        from + 1,
        store,
        place,
    );
    let loaded = stage(Trace { replies, at: from }).outcome->Done_0;
    assert(journal::record_events(loaded) =~= journaled(store, game_id, outside.event_of));
}

spec fn projecting(submission: SubmissionView, state: GameState) -> Workflow<
    GameState,
    GameServiceError,
> {
    |trace: Trace| game_service::project_run(trace, submission, state)
}

spec fn rebuilding(
    submission: SubmissionView,
    state: GameState,
    loaded: Seq<EventRecord>,
) -> Workflow<(), ProjectionError> {
    |trace: Trace|
        projections::project_game_run(
            trace,
            state,
            journal::event_refs(loaded),
            submission.updated_at_ms,
        )
}

/// Whether a store has projections of a game as its journal tells it.
spec fn projected_from(
    before: Store,
    after: Store,
    submission: SubmissionView,
    state: GameState,
    outside: Outside,
) -> bool {
    &&& projection_laws::projected(
        before,
        after,
        state,
        game_service::refs(journaled(after, submission.game_id, outside.event_of)),
        submission.updated_at_ms,
    )
    &&& after.rows("game_commands"@) == before.rows("game_commands"@)
    &&& after.rows("game_snapshots"@) == before.rows("game_snapshots"@)
    &&& after.rows("games"@) == before.rows("games"@)
    &&& after.rows("game_journal"@) == before.rows("game_journal"@)
}

/// The last part of a submission projects the whole journal.
proof fn journal_is_projected(
    submission: SubmissionView,
    state: GameState,
    outside: Outside,
    replies: Seq<Reply>,
    from: int,
    store: Store,
    value: GameState,
)
    requires
        stages::underway(
            projecting(submission, state),
            replies,
            from,
            store,
            answered_by(outside),
        ),
        projecting(submission, state)(Trace { replies, at: from }).outcome == Outcome::<
            GameState,
            GameServiceError,
        >::Done(value),
    ensures
        value == state,
        ({
            let to = projecting(submission, state)(Trace { replies, at: from }).trace.at;
            &&& from <= to <= replies.len()
            &&& projected_from(
                store,
                stages::stage_store(projecting(submission, state), replies, from, store, to),
                submission,
                state,
                outside,
            )
        }),
{
    let fits = answered_by(outside);
    let stage = projecting(submission, state);
    let start = Trace { replies, at: from };
    let count = replies.len() as int;
    let first = journal_laws::loading(submission.game_id, 0);
    let finish = |rebuilt: (), trace: Trace| script::done::<GameState, GameServiceError>(trace, state);
    let rest = |loaded: Seq<EventRecord>, trace: Trace|
        script::chain(
            script::lift(
                rebuilding(submission, state, loaded)(trace),
                |error: ProjectionError| GameServiceError::Projection(error),
            ),
            finish,
        );
    assert forall|trace: Trace|
        match first(trace).outcome {
            Outcome::Wait(ask) => (#[trigger] stage(trace)).outcome == Outcome::<
                GameState,
                GameServiceError,
            >::Wait(ask),
            Outcome::Done(value) => stage(trace) == rest(value, first(trace).trace),
            _ => true,
        } by {
        if let Outcome::Done(loaded) = first(trace).outcome {
            assert(stage(trace) == rest(loaded, first(trace).trace));
        }
    }
    assert forall|cut: int| 0 <= cut <= replies.len() implies steady::steady(
        first(start),
        #[trigger] stages::stage_run(first, replies, from, cut),
        replies,
        from,
        cut,
    ) by {
        steady::loading_is_steady(replies, from, cut, submission.game_id, 0);
    }
    stages::goes_through(stage, first, rest, replies, from, store, fits);
    assert(first(start).outcome is Done);
    let loaded = first(start).outcome->Done_0;
    let mid = first(start).trace.at;
    journal_is_loaded(submission.game_id, outside, replies, from, store, mid);
    let second: Workflow<GameState, GameServiceError> = |trace: Trace| rest(loaded, trace);
    let inner = rebuilding(submission, state, loaded);
    let events = journal::event_refs(loaded);
    assert forall|trace: Trace|
        match inner(trace).outcome {
            Outcome::Wait(ask) => (#[trigger] second(trace)).outcome == Outcome::<
                GameState,
                GameServiceError,
            >::Wait(ask),
            Outcome::Done(value) => second(trace) == finish(value, inner(trace).trace),
            _ => true,
        } by {}
    let middle = Trace { replies, at: mid };
    assert forall|cut: int| 0 <= cut <= replies.len() implies steady::steady(
        inner(middle),
        #[trigger] stages::stage_run(inner, replies, mid, cut),
        replies,
        mid,
        cut,
    ) by {
        steady::projecting_is_steady(replies, mid, cut, state, events, submission.updated_at_ms);
    }
    stages::goes_through(second, inner, finish, replies, mid, store, fits);
    assert(inner(middle).outcome is Done);
    let end = inner(middle).trace.at;
    let after = stages::stage_store(inner, replies, mid, store, end);
    assert(projections::projectable(state));
    let projection = projection_laws::projecting(state, events, submission.updated_at_ms);
    assert forall|trace: Trace| #[trigger] inner(trace) == projection(trace) by {}
    stages::same_stage(inner, projection, replies, mid, store, (), end, after);
    projection_laws::game_is_projected(
        state,
        events,
        submission.updated_at_ms,
        replies,
        mid,
        store,
        end,
        after,
    );
    let third: Workflow<GameState, GameServiceError> = |trace: Trace| finish((), trace);
    stages::nothing_more(third, replies, end, after, end);
    assert(stages::stage_store(stage, replies, from, store, end) == after);
    other_tables();
    assert(journal_rows(after, submission.game_id) == journal_rows(store, submission.game_id));
    assert(events =~= game_service::refs(journaled(after, submission.game_id, outside.event_of))) by {
        assert(journal::record_events(loaded) == journaled(after, submission.game_id, outside.event_of));
        assert forall|i: int| 0 <= i < events.len() implies *(#[trigger] events[i]) == journaled(after, submission.game_id, outside.event_of)[i] by {
            assert(journal::record_events(loaded)[i] == loaded[i].event);
        }
    }
}

/// No table of a game itself is one of its projections.
proof fn other_tables()
    ensures
        forall|table: Seq<char>|
            #![trigger own_table(table)]
            own_table(table) ==> table != "move_history"@ && table != "game_summaries"@ && table
                != "game_scores"@ && table != "user_score_totals"@ && table
                != "projection_checkpoints"@,
        own_table("games"@),
        own_table("game_journal"@),
        own_table("game_commands"@),
        own_table("game_snapshots"@),
{
    reveal_strlit("games");
    reveal_strlit("game_journal");
    reveal_strlit("game_commands");
    reveal_strlit("game_snapshots");
    reveal_strlit("move_history");
    reveal_strlit("game_summaries");
    reveal_strlit("game_scores");
    reveal_strlit("user_score_totals");
    reveal_strlit("projection_checkpoints");
    assert("games"@.len() == 5);
    assert("game_journal"@.len() == 12 && "game_journal"@[0] == 'g');
    assert("game_commands"@.len() == 13);
    assert("game_snapshots"@.len() == 14 && "game_snapshots"@[6] == 'n');
    assert("move_history"@.len() == 12 && "move_history"@[0] == 'm');
    assert("game_summaries"@.len() == 14 && "game_summaries"@[6] == 'u');
    assert("game_scores"@.len() == 11);
    assert("user_score_totals"@.len() == 17);
    assert("projection_checkpoints"@.len() == 22);
}

/// The tables that hold a game itself.
spec fn own_table(table: Seq<char>) -> bool {
    table == "games"@ || table == "game_journal"@ || table == "game_commands"@ || table
        == "game_snapshots"@
}

/// The command of a submission.
pub open spec fn command_of(submission: SubmissionView) -> CommandView {
    CommandView {
        game_id: submission.game_id,
        command_id: submission.command_id,
        idempotency_key: submission.idempotency_key,
        expected_revision: submission.expected_revision,
    }
}

/// Whether a row records a submission.
pub open spec fn records(record: Record, submission: SubmissionView) -> bool {
    &&& model::datum_in(record, "game_id"@) == Datum::Text(ids::id_text_of(submission.game_id))
    &&& model::datum_in(record, "command_id"@) == Datum::Text(submission.command_id)
    &&& model::datum_in(record, "idempotency_key"@) == Datum::Text(submission.idempotency_key)
    &&& model::datum_in(record, "expected_revision"@) == Datum::Integer(
        submission.expected_revision as int,
    )
}

/// Whether a journal row was appended by a submission as its event number `index`.
pub open spec fn appends(record: Record, submission: SubmissionView, index: int) -> bool {
    &&& model::datum_in(record, "game_id"@) == Datum::Text(ids::id_text_of(submission.game_id))
    &&& model::datum_in(record, "revision"@) == Datum::Integer(
        submission.expected_revision + index + 1,
    )
    &&& model::datum_in(record, "command_id"@) == Datum::Text(submission.command_id)
    &&& model::datum_in(record, "idempotency_key"@) == Datum::Text(submission.idempotency_key)
}

/// Whether a store has a submission's command, and `count` more journal rows for its events.
pub open spec fn appended(
    before: Store,
    after: Store,
    submission: SubmissionView,
    count: int,
) -> bool {
    let old_rows = before.rows("game_journal"@);
    let rows = after.rows("game_journal"@);
    let commands = after.rows("game_commands"@);
    &&& commands.len() == before.rows("game_commands"@).len() + 1
    &&& records(commands.last(), submission)
    &&& model::datum_in(commands.last(), "resulting_revision"@) == Datum::Integer(
        submission.expected_revision + count,
    )
    &&& rows.len() == old_rows.len() + count
    &&& forall|i: int| 0 <= i < old_rows.len() ==> #[trigger] rows[i] == old_rows[i]
    &&& forall|i: int|
        old_rows.len() <= i < rows.len() ==> appends(
            #[trigger] rows[i],
            submission,
            i - old_rows.len(),
        )
}

/// What an insertion leaves in the journal.
proof fn insertion_appends(
    submission: SubmissionView,
    events: Seq<&GameEvent>,
    index: int,
    replies: Seq<Reply>,
    from: int,
    store: Store,
    to: int,
    after: Store,
)
    requires
        0 <= index <= events.len(),
        stages::played(
            append_laws::inserting(command_of(submission), events, index),
            replies,
            from,
            store,
            (),
            to,
            after,
        ),
    ensures
        after.rows("game_journal"@).len() == store.rows("game_journal"@).len() + events.len()
            - index,
        forall|i: int|
            0 <= i < store.rows("game_journal"@).len() ==> #[trigger] after.rows(
                "game_journal"@,
            )[i] == store.rows("game_journal"@)[i],
        forall|i: int|
            store.rows("game_journal"@).len() <= i < after.rows("game_journal"@).len()
                ==> appends(
                #[trigger] after.rows("game_journal"@)[i],
                submission,
                index + i - store.rows("game_journal"@).len(),
            ),
    decreases events.len() - index,
{
    let command = command_of(submission);
    let stage = append_laws::inserting(command, events, index);
    if index >= events.len() {
        stages::ended(stage, replies, from, store, (), to, after, ());
    } else {
        assert(command.expected_revision + index + 1 <= i64::MAX);
        append_laws::insertion_begins(command, events, index);
        append_laws::inserting_is_in_order(command, events, index + 1, replies, from + 2);
        let count = replies.len() as int;
        assert(replies.take(count) =~= replies);
        let next_stage = append_laws::inserting(command, events, index + 1);
        assert(stages::stage_run(next_stage, replies, from + 2, count)
            == journal::insert_events_run(
            Trace { replies, at: from + 2 },
            command,
            events,
            index + 1,
        ));
        assert(to >= from + 2);
        stages::answered(
            stage,
            Ask::EncodeEvent(*events[index]),
            append_laws::inserted(command, events, index),
            replies,
            from,
            store,
            (),
            to,
            after,
        );
        let second: Workflow<(), JournalError> = |trace: Trace|
            append_laws::inserted(command, events, index)(replies[from], trace);
        let payload = replies[from]->Text_0@;
        let op = journal::insert_event_op(
            command,
            (command.expected_revision + index + 1) as u64,
            payload,
        );
        let rest = |rows: Seq<Row>, trace: Trace|
            journal::insert_events_run(trace, command, events, index + 1);
        let rows = stages::queried(second, op, rest, replies, from + 1, store, (), to, after);
        let next = model::executed(store, op).0;
        let third: Workflow<(), JournalError> = |trace: Trace| rest(rows, trace);
        stages::same_stage(third, next_stage, replies, from + 2, next, (), to, after);
        insertion_appends(
            submission,
            events,
            index + 1,
            replies,
            from + 2,
            next,
            to,
            after,
        );
        journal_laws::journal_record_holds(command, payload, index);
        let old_rows = store.rows("game_journal"@);
        let more = next.rows("game_journal"@);
        assert(more == old_rows.push(journal_laws::journal_record(command, payload, index)));
        assert forall|i: int| 0 <= i < old_rows.len() implies #[trigger] after.rows(
            "game_journal"@,
        )[i] == old_rows[i] by {
            assert(after.rows("game_journal"@)[i] == more[i]);
        }
        assert forall|i: int|
            old_rows.len() <= i < after.rows("game_journal"@).len() implies appends(
            #[trigger] after.rows("game_journal"@)[i],
            submission,
            index + i - old_rows.len(),
        ) by {
            if i < more.len() {
                assert(after.rows("game_journal"@)[i] == more[i]);
            }
        }
    }
}

/// What the row of a command holds.
proof fn command_is_recorded(submission: SubmissionView, resulting: u64)
    ensures
        ({
            let record = model::assigned(
                Map::empty(),
                journal::insert_command_op(command_of(submission), resulting).values,
            );
            &&& records(record, submission)
            &&& model::datum_in(record, "resulting_revision"@) == Datum::Integer(resulting as int)
        }),
{
    let values = journal::insert_command_op(command_of(submission), resulting).values;
    reveal_strlit("game_command_id");
    reveal_strlit("game_id");
    reveal_strlit("command_id");
    reveal_strlit("idempotency_key");
    reveal_strlit("expected_revision");
    reveal_strlit("resulting_revision");
    assert("game_command_id"@.len() == 15 && "game_command_id"@[0] == 'g');
    assert("game_id"@.len() == 7);
    assert("command_id"@.len() == 10);
    assert("idempotency_key"@.len() == 15 && "idempotency_key"@[0] == 'i');
    assert("expected_revision"@.len() == 17);
    assert("resulting_revision"@.len() == 18);
    assert(values.len() == 6);
    model::assigned_sets(Map::empty(), values, 1);
    model::assigned_sets(Map::empty(), values, 2);
    model::assigned_sets(Map::empty(), values, 3);
    model::assigned_sets(Map::empty(), values, 4);
    model::assigned_sets(Map::empty(), values, 5);
}

/// What appending a submission's events leaves behind.
proof fn events_are_appended(
    submission: SubmissionView,
    events: Seq<&GameEvent>,
    replies: Seq<Reply>,
    from: int,
    store: Store,
    revision: u64,
    to: int,
    after: Store,
)
    requires
        stages::played(
            transactions::appending(command_of(submission), events),
            replies,
            from,
            store,
            revision,
            to,
            after,
        ),
    ensures
        revision == submission.expected_revision + events.len(),
        appended(store, after, submission, events.len() as int),
{
    let command = command_of(submission);
    let stage = transactions::appending(command, events);
    let by_game = journal_laws::revision_op(command.game_id);
    let rest = |rows: Seq<Row>, trace: Trace|
        match store::first_integer_of(rows, "canonical_revision"@) {
            None => script::fail(trace, JournalError::GameNotFound),
            Some(actual) => if actual < 0 {
                script::fail(trace, JournalError::InvalidRevision)
            } else if actual != command.expected_revision {
                script::fail(
                    trace,
                    JournalError::Conflict {
                        expected: command.expected_revision,
                        actual: actual as u64,
                    },
                )
            } else {
                journal::append_unused_run(trace, command, events)
            },
        };
    let count = replies.len() as int;
    assert(replies.take(count) =~= replies);
    steady::appending_is_steady(replies, from, from, command, events);
    let rows = stages::queried(
        stage,
        by_game,
        rest,
        replies,
        from,
        store,
        revision,
        to,
        after,
    );
    let second: Workflow<u64, JournalError> = |trace: Trace| rest(rows, trace);
    let by_id = journal_laws::command_op(command);
    let by_key = journal_laws::key_op(command);
    let finish = |inserted: (), trace: Trace|
        journal::finish_append_run(trace, command, events.len() as int);
    let first = append_laws::inserting(command, events, 0);
    let keyed = |used: Seq<Row>, trace: Trace|
        if used.len() > 0 {
            script::fail(trace, JournalError::DuplicateCommand)
        } else {
            script::chain(first(trace), finish)
        };
    let named = |used: Seq<Row>, trace: Trace|
        if used.len() > 0 {
            script::fail(trace, JournalError::DuplicateCommand)
        } else {
            script::query(trace, by_key, keyed)
        };
    assert(second(Trace { replies, at: from + 1 }).outcome is Done);
    assert forall|trace: Trace| #[trigger] second(trace) == script::query(
        trace,
        by_id,
        named,
    ) by {}
    steady::inserting_is_steady(replies, from + 3, count, command, events, 0);
    let used = stages::queried(
        second,
        by_id,
        named,
        replies,
        from + 1,
        store,
        revision,
        to,
        after,
    );
    let third: Workflow<u64, JournalError> = |trace: Trace| named(used, trace);
    assert(third(Trace { replies, at: from + 2 }).outcome is Done);
    let used_key = stages::queried(
        third,
        by_key,
        keyed,
        replies,
        from + 2,
        store,
        revision,
        to,
        after,
    );
    let fourth: Workflow<u64, JournalError> = |trace: Trace| keyed(used_key, trace);
    assert(fourth(Trace { replies, at: from + 3 }).outcome is Done);
    append_laws::inserting_is_in_order(command, events, 0, replies, from + 3);
    let (inserted, mid, between) = stages::chained(
        fourth,
        first,
        finish,
        replies,
        from + 3,
        store,
        revision,
        to,
        after,
    );
    insertion_appends(submission, events, 0, replies, from + 3, store, mid, between);
    append_laws::insertion_keeps_tables(
        command,
        events,
        0,
        replies,
        from + 3,
        store,
        mid,
        between,
    );
    let resulting = (command.expected_revision + events.len()) as u64;
    let fifth: Workflow<u64, JournalError> = |trace: Trace| finish(inserted, trace);
    assert(fifth(Trace { replies, at: mid }).outcome is Done);
    let record = journal::insert_command_op(command, resulting);
    let advance = journal::advance_revision_op(command, resulting);
    let end = |updated: Seq<Row>, trace: Trace|
        if updated.len() != 1 {
            script::fail::<u64, JournalError>(trace, JournalError::ConcurrentConflict)
        } else {
            script::done(trace, resulting)
        };
    let recorded = |rows: Seq<Row>, trace: Trace| script::query(trace, advance, end);
    let noted = stages::queried(
        fifth,
        record,
        recorded,
        replies,
        mid,
        between,
        revision,
        to,
        after,
    );
    let next = model::executed(between, record).0;
    let sixth: Workflow<u64, JournalError> = |trace: Trace| recorded(noted, trace);
    let updated = stages::queried(
        sixth,
        advance,
        end,
        replies,
        mid + 1,
        next,
        revision,
        to,
        after,
    );
    let last: Workflow<u64, JournalError> = |trace: Trace| end(updated, trace);
    assert(last(Trace { replies, at: mid + 2 }).outcome is Done);
    stages::ended(
        last,
        replies,
        mid + 2,
        model::executed(next, advance).0,
        revision,
        to,
        after,
        resulting,
    );
    command_is_recorded(submission, resulting);
    journal_laws::written_tables_differ();
    assert(between.rows("game_commands"@) == store.rows("game_commands"@));
    assert(after.rows("game_commands"@) == next.rows("game_commands"@));
    assert(after.rows("game_journal"@) == between.rows("game_journal"@));
}

/// Whether a store has a snapshot of a state under a game.
pub open spec fn snapshotted(store: Store, game_id: GameId, state: GameState) -> bool {
    let rows = store.rows("game_snapshots"@);
    exists|i: int|
        0 <= i < rows.len() && model::datum_in(#[trigger] rows[i], "game_id"@) == Datum::Text(
            ids::id_text_of(game_id),
        ) && model::datum_in(rows[i], "revision"@) == Datum::Integer(state.revision as int)
}

/// What storing a snapshot leaves behind.
proof fn snapshot_is_stored(
    game_id: GameId,
    state: GameState,
    created_at_ms: i64,
    replies: Seq<Reply>,
    from: int,
    store: Store,
    to: int,
    after: Store,
)
    requires
        stages::played(
            snapshot_laws::keeping(game_id, state, created_at_ms),
            replies,
            from,
            store,
            (),
            to,
            after,
        ),
    ensures
        snapshotted(after, game_id, state),
        forall|table: Seq<char>|
            table != "game_snapshots"@ ==> #[trigger] after.rows(table) == store.rows(table),
{
    let stage = snapshot_laws::keeping(game_id, state, created_at_ms);
    let delete = journal::delete_snapshot_op(game_id, state.revision);
    let insert = |payload: Seq<char>|
        journal::insert_snapshot_op(game_id, state.revision, payload, created_at_ms);
    let written = |reply: Reply, trace: Trace|
        match reply {
            Reply::Refused(reason) => script::fail(trace, JournalError::Serialization(reason)),
            reply => match script::reply_text(reply) {
                Some(payload) => script::perform(
                    trace,
                    insert(payload),
                    |trace: Trace| script::done::<(), JournalError>(trace, ()),
                ),
                None => Run { outcome: Outcome::Mismatch(trace.at - 1), trace },
            },
        };
    let rest = |rows: Seq<Row>, trace: Trace|
        if trace.spent() {
            Run { outcome: Outcome::Wait(Ask::EncodeState(state)), trace }
        } else {
            written(trace.reply(), trace.next())
        };
    assert(stage(Trace { replies, at: from }).outcome is Done);
    assert(state.revision <= i64::MAX);
    assert forall|trace: Trace| #[trigger] stage(trace) == script::query(trace, delete, rest) by {}
    steady::storing_is_steady(replies, from, from, game_id, state, created_at_ms);
    assert(stages::stage_run(stage, replies, from, from).outcome is Wait);
    let gone = stages::queried(stage, delete, rest, replies, from, store, (), to, after);
    let cleared = model::executed(store, delete).0;
    let second: Workflow<(), JournalError> = |trace: Trace| rest(gone, trace);
    assert(second(Trace { replies, at: from + 1 }).outcome is Done);
    stages::answered(
        second,
        Ask::EncodeState(state),
        written,
        replies,
        from + 1,
        cleared,
        (),
        to,
        after,
    );
    let third: Workflow<(), JournalError> = |trace: Trace| written(replies[from + 1], trace);
    assert(third(Trace { replies, at: from + 2 }).outcome is Done);
    let payload = script::reply_text(replies[from + 1])->0;
    let op = insert(payload);
    let tail = |rows: Seq<Row>, trace: Trace| script::done::<(), JournalError>(trace, ());
    assert forall|trace: Trace| #[trigger] third(trace) == script::query(trace, op, tail) by {}
    let kept = stages::queried(third, op, tail, replies, from + 2, cleared, (), to, after);
    stages::ended(
        |trace: Trace| tail(kept, trace),
        replies,
        from + 3,
        model::executed(cleared, op).0,
        (),
        to,
        after,
        (),
    );
    snapshot_laws::record_holds(game_id, state.revision, payload, created_at_ms);
    let rows = after.rows("game_snapshots"@);
    assert(rows.last() == snapshot_laws::snapshot_record(
        game_id,
        state.revision,
        payload,
        created_at_ms,
    ));
    assert(model::datum_in(rows[rows.len() - 1], "game_id"@) == Datum::Text(
        ids::id_text_of(game_id),
    ));
}

spec fn applying(state: Option<GameState>, events: Seq<GameEvent>, index: int) -> Workflow<
    Option<GameState>,
    JournalError,
> {
    |trace: Trace| journal::apply_events_run(trace, state, events, index)
}

spec fn applied(events: Seq<GameEvent>, index: int) -> spec_fn(Reply, Trace) -> Run<
    Option<GameState>,
    JournalError,
> {
    |reply: Reply, trace: Trace|
        match reply {
            Reply::Refused(reason) => script::fail(trace, JournalError::Replay(reason)),
            reply => match script::reply_state(reply) {
                Some(next) => journal::apply_events_run(trace, Some(next), events, index + 1),
                None => Run { outcome: Outcome::Mismatch(trace.at - 1), trace },
            },
        }
}

/// Events are applied by the rules, in turn.
proof fn events_are_applied(
    start: Option<GameState>,
    state: Option<GameState>,
    events: Seq<GameEvent>,
    index: int,
    outside: Outside,
    replies: Seq<Reply>,
    from: int,
    store: Store,
)
    requires
        0 <= index <= events.len(),
        state == journal_laws::replayed(outside.engine, start, events.take(index)),
        stages::underway(
            applying(state, events, index),
            replies,
            from,
            store,
            answered_by(outside),
        ),
        applying(state, events, index)(Trace { replies, at: from }).outcome is Done,
    ensures
        applying(state, events, index)(Trace { replies, at: from }).outcome->Done_0
            == journal_laws::replayed(outside.engine, start, events),
    decreases events.len() - index,
{
    let stage = applying(state, events, index);
    if index < events.len() {
        let ask = Ask::Apply(state, events[index]);
        let rest = applied(events, index);
        assert forall|trace: Trace| #[trigger] stage(trace) == (if trace.spent() {
            Run { outcome: Outcome::Wait(ask), trace }
        } else {
            rest(trace.reply(), trace.next())
        }) by {}
        stages::asks_outside(stage, ask, rest, replies, from, store, answered_by(outside));
        let next_state = script::reply_state(replies[from]);
        let second: Workflow<Option<GameState>, JournalError> = |trace: Trace|
            rest(replies[from], trace);
        let next = applying(next_state, events, index + 1);
        assert forall|trace: Trace| #[trigger] second(trace) == next(trace) by {}
        stages::same_underway(second, next, replies, from + 1, store, answered_by(outside));
        assert(events.take(index + 1).drop_last() =~= events.take(index));
        assert(events.take(index + 1).last() == events[index]);
        events_are_applied(
            start,
            next_state,
            events,
            index + 1,
            outside,
            replies,
            from + 1,
            store,
        );
    } else {
        assert(events.take(index) =~= events);
    }
}

proof fn applying_asks_the_engine(
    trace: Trace,
    state: Option<GameState>,
    events: Seq<GameEvent>,
    index: int,
)
    ensures
        !(journal::apply_events_run(trace, state, events, index).outcome matches Outcome::Wait(
            Ask::Store(_),
        )),
    decreases events.len() - index,
{
    if index < events.len() && !trace.spent() {
        if let Some(next) = script::reply_state(trace.reply()) {
            applying_asks_the_engine(trace.next(), Some(next), events, index + 1);
        }
    }
}

/// A stage that asks nothing of the store leaves it alone.
proof fn store_is_left<T, E>(
    stage: Workflow<T, E>,
    replies: Seq<Reply>,
    from: int,
    store: Store,
    place: int,
)
    requires
        forall|trace: Trace|
            !((#[trigger] stage(trace)).outcome matches Outcome::Wait(Ask::Store(_))),
    ensures
        stages::stage_store(stage, replies, from, store, place) == store,
    decreases place - from,
{
    if place > from {
        store_is_left(stage, replies, from, store, place - 1);
    }
}

/// Whether a submission of so many events was carried out in full.
#[verifier::opaque]
pub open spec fn carried_out(
    before: Store,
    after: Store,
    submission: SubmissionView,
    state: GameState,
    count: int,
    outside: Outside,
) -> bool {
    let events = game_service::refs(journaled(after, submission.game_id, outside.event_of));
    &&& appended(before, after, submission, count)
    &&& snapshotted(after, submission.game_id, state)
    &&& outcome_laws::history_tells(after, state, events, submission.updated_at_ms)
    &&& outcome_laws::summary_tells(after, state, events, submission.updated_at_ms)
    &&& outcome_laws::scores_tell(after, state)
    &&& outcome_laws::totals_count(after)
}

spec fn persisting(
    submission: SubmissionView,
    current: GameState,
    events: Seq<GameEvent>,
) -> Workflow<GameState, GameServiceError> {
    |trace: Trace| game_service::persist_run(trace, submission, current, events)
}

spec fn snapshotting(submission: SubmissionView, state: GameState) -> Workflow<
    GameState,
    GameServiceError,
> {
    |trace: Trace|
        script::chain(
            script::lift(
                snapshot_laws::keeping(submission.game_id, state, submission.updated_at_ms)(trace),
                |error: JournalError| GameServiceError::Journal(error),
            ),
            |stored: (), trace: Trace| projecting(submission, state)(trace),
        )
}

/// The part of a submission behind its events being applied.
proof fn snapshot_goes_on(
    submission: SubmissionView,
    state: GameState,
    outside: Outside,
    replies: Seq<Reply>,
    from: int,
    store: Store,
    value: GameState,
) -> (middle: (int, Store))
    requires
        stages::underway(
            snapshotting(submission, state),
            replies,
            from,
            store,
            answered_by(outside),
        ),
        snapshotting(submission, state)(Trace { replies, at: from }).outcome == Outcome::<
            GameState,
            GameServiceError,
        >::Done(value),
    ensures
        value == state,
        ({
            let to = snapshotting(submission, state)(Trace { replies, at: from }).trace.at;
            let after = stages::stage_store(
                snapshotting(submission, state),
                replies,
                from,
                store,
                to,
            );
            &&& from <= to <= replies.len()
            &&& snapshotted(after, submission.game_id, state)
            &&& projected_from(middle.1, after, submission, state, outside)
            &&& forall|table: Seq<char>|
                table != "game_snapshots"@ ==> #[trigger] middle.1.rows(table) == store.rows(table)
        }),
{
    let fits = answered_by(outside);
    let stage = snapshotting(submission, state);
    let start = Trace { replies, at: from };
    let first = snapshot_laws::keeping(submission.game_id, state, submission.updated_at_ms);
    let next = projecting(submission, state);
    let rest = |stored: (), trace: Trace| next(trace);
    assert forall|trace: Trace|
        match first(trace).outcome {
            Outcome::Wait(ask) => (#[trigger] stage(trace)).outcome == Outcome::<
                GameState,
                GameServiceError,
            >::Wait(ask),
            Outcome::Done(value) => stage(trace) == rest(value, first(trace).trace),
            _ => true,
        } by {}
    assert forall|cut: int| 0 <= cut <= replies.len() implies steady::steady(
        first(start),
        #[trigger] stages::stage_run(first, replies, from, cut),
        replies,
        from,
        cut,
    ) by {
        steady::storing_is_steady(
            replies,
            from,
            cut,
            submission.game_id,
            state,
            submission.updated_at_ms,
        );
    }
    stages::goes_through(stage, first, rest, replies, from, store, fits);
    assert(first(start).outcome is Done);
    let mid = first(start).trace.at;
    let between = stages::stage_store(first, replies, from, store, mid);
    snapshot_is_stored(
        submission.game_id,
        state,
        submission.updated_at_ms,
        replies,
        from,
        store,
        mid,
        between,
    );
    let second: Workflow<GameState, GameServiceError> = |trace: Trace| rest((), trace);
    assert(second =~= next);
    journal_is_projected(submission, state, outside, replies, mid, between, value);
    let to = stage(start).trace.at;
    assert(stages::stage_store(stage, replies, from, store, to) == stages::stage_store(
        next,
        replies,
        mid,
        between,
        to,
    ));
    (mid, between)
}

/// A submission that has been decided is carried out in full.
proof fn decision_is_persisted(
    submission: SubmissionView,
    current: GameState,
    events: Seq<GameEvent>,
    outside: Outside,
    replies: Seq<Reply>,
    from: int,
    store: Store,
    value: GameState,
)
    requires
        stages::underway(
            persisting(submission, current, events),
            replies,
            from,
            store,
            answered_by(outside),
        ),
        persisting(submission, current, events)(Trace { replies, at: from }).outcome == Outcome::<
            GameState,
            GameServiceError,
        >::Done(value),
    ensures
        ({
            let to = persisting(submission, current, events)(Trace { replies, at: from }).trace.at;
            let after = stages::stage_store(
                persisting(submission, current, events),
                replies,
                from,
                store,
                to,
            );
            &&& from <= to <= replies.len()
            &&& carried_out(store, after, submission, value, events.len() as int, outside)
            &&& Some(value) == journal_laws::replayed(outside.engine, Some(current), events)
        }),
{
    let fits = answered_by(outside);
    let stage = persisting(submission, current, events);
    let start = Trace { replies, at: from };
    reveal(carried_out);
    let command = command_of(submission);
    let refs = game_service::refs(events);
    let first = transactions::appending(command, refs);
    let second = applying(Some(current), events, 0);
    let last = |state: Option<GameState>, trace: Trace| snapshotting(submission, state->0)(trace);
    let rest = |revision: u64, trace: Trace|
        script::chain(
            script::lift(
                second(trace),
                |error: JournalError| game_service::replay_error(error),
            ),
            last,
        );
    assert forall|trace: Trace|
        match first(trace).outcome {
            Outcome::Wait(ask) => (#[trigger] stage(trace)).outcome == Outcome::<
                GameState,
                GameServiceError,
            >::Wait(ask),
            Outcome::Done(value) => stage(trace) == rest(value, first(trace).trace),
            _ => true,
        } by {
        if let Outcome::Done(revision) = first(trace).outcome {
            let applied = second(first(trace).trace);
            if let Outcome::Done(state) = applied.outcome {
                let stored = |stored: (), trace: Trace|
                    game_service::project_run(trace, submission, state->0);
                let same = |stored: (), trace: Trace| projecting(submission, state->0)(trace);
                assert(stored =~= same);
            }
        }
    }
    assert forall|cut: int| 0 <= cut <= replies.len() implies steady::steady(
        first(start),
        #[trigger] stages::stage_run(first, replies, from, cut),
        replies,
        from,
        cut,
    ) by {
        steady::appending_is_steady(replies, from, cut, command, refs);
    }
    stages::goes_through(stage, first, rest, replies, from, store, fits);
    assert(first(start).outcome is Done);
    let revision = first(start).outcome->Done_0;
    let mid = first(start).trace.at;
    let between = stages::stage_store(first, replies, from, store, mid);
    events_are_appended(submission, refs, replies, from, store, revision, mid, between);
    let middle: Workflow<GameState, GameServiceError> = |trace: Trace| rest(revision, trace);
    assert forall|trace: Trace|
        match second(trace).outcome {
            Outcome::Wait(ask) => (#[trigger] middle(trace)).outcome == Outcome::<
                GameState,
                GameServiceError,
            >::Wait(ask),
            Outcome::Done(value) => middle(trace) == last(value, second(trace).trace),
            _ => true,
        } by {}
    let between_start = Trace { replies, at: mid };
    assert forall|cut: int| 0 <= cut <= replies.len() implies steady::steady(
        second(between_start),
        #[trigger] stages::stage_run(second, replies, mid, cut),
        replies,
        mid,
        cut,
    ) by {
        steady::applying_is_steady(replies, mid, cut, Some(current), events, 0);
    }
    stages::goes_through(middle, second, last, replies, mid, between, fits);
    assert(second(between_start).outcome is Done);
    let state = second(between_start).outcome->Done_0;
    let end = second(between_start).trace.at;
    assert forall|trace: Trace|
        !((#[trigger] second(trace)).outcome matches Outcome::Wait(Ask::Store(_))) by {
        applying_asks_the_engine(trace, Some(current), events, 0);
    }
    store_is_left(second, replies, mid, between, end);
    assert(events.take(0) =~= Seq::empty());
    events_are_applied(
        Some(current),
        Some(current),
        events,
        0,
        outside,
        replies,
        mid,
        between,
    );
    let ending: Workflow<GameState, GameServiceError> = |trace: Trace| last(state, trace);
    let finishing = snapshotting(submission, state->0);
    assert(ending =~= finishing);
    let (_, kept) = snapshot_goes_on(
        submission,
        state->0,
        outside,
        replies,
        end,
        between,
        value,
    );
    let to = stage(start).trace.at;
    let after = stages::stage_store(stage, replies, from, store, to);
    assert(after == stages::stage_store(middle, replies, mid, between, to));
    assert(after == stages::stage_store(finishing, replies, end, between, to));
    let all = game_service::refs(journaled(after, submission.game_id, outside.event_of));
    outcome_laws::projected_histories_tell_the_events(
        kept,
        after,
        value,
        all,
        submission.updated_at_ms,
    );
    outcome_laws::projected_summaries_tell_the_state(
        kept,
        after,
        value,
        all,
        submission.updated_at_ms,
    );
    outcome_laws::projected_scores_tell_the_outcome(
        kept,
        after,
        value,
        all,
        submission.updated_at_ms,
    );
    outcome_laws::projected_totals_count_every_game(
        kept,
        after,
        value,
        all,
        submission.updated_at_ms,
    );
    journal_and_snapshots_differ();
    assert(kept.rows("game_journal"@) == between.rows("game_journal"@));
    assert(kept.rows("game_commands"@) == between.rows("game_commands"@));
    assert(refs.len() == events.len());
}

proof fn journal_and_snapshots_differ()
    ensures
        "game_journal"@ != "game_snapshots"@,
        "game_commands"@ != "game_snapshots"@,
{
    reveal_strlit("game_journal");
    reveal_strlit("game_commands");
    reveal_strlit("game_snapshots");
    assert("game_journal"@.len() == 12);
    assert("game_commands"@.len() == 13);
    assert("game_snapshots"@.len() == 14);
}

spec fn deciding(submission: SubmissionView, actor: PlayerId, current: GameState) -> Workflow<
    GameState,
    GameServiceError,
> {
    |trace: Trace| game_service::decide_run(trace, submission, actor, current)
}

/// Whether a submission was decided for a player in a state, and carried out in full.
pub open spec fn decided(
    before: Store,
    after: Store,
    submission: SubmissionView,
    state: GameState,
    outside: Outside,
    actor: PlayerId,
    current: GameState,
) -> bool {
    let events = (outside.decisions)(current, actor, submission.command);
    &&& Some(state) == journal_laws::replayed(outside.engine, Some(current), events)
    &&& carried_out(before, after, submission, state, events.len() as int, outside)
}

/// A command that the rules decide is carried out in full.
proof fn decision_is_carried_out(
    submission: SubmissionView,
    actor: PlayerId,
    current: GameState,
    outside: Outside,
    replies: Seq<Reply>,
    from: int,
    store: Store,
    value: GameState,
)
    requires
        stages::underway(
            deciding(submission, actor, current),
            replies,
            from,
            store,
            answered_by(outside),
        ),
        deciding(submission, actor, current)(Trace { replies, at: from }).outcome == Outcome::<
            GameState,
            GameServiceError,
        >::Done(value),
    ensures
        ({
            let to = deciding(submission, actor, current)(Trace { replies, at: from }).trace.at;
            let after = stages::stage_store(
                deciding(submission, actor, current),
                replies,
                from,
                store,
                to,
            );
            &&& from <= to <= replies.len()
            &&& decided(store, after, submission, value, outside, actor, current)
        }),
{
    let fits = answered_by(outside);
    let stage = deciding(submission, actor, current);
    let chosen = |reply: Reply, trace: Trace|
        match reply {
            Reply::Refused(reason) => script::fail(trace, GameServiceError::Domain(reason)),
            reply => match script::reply_events(reply) {
                Some(events) => persisting(submission, current, events)(trace),
                None => Run { outcome: Outcome::Mismatch(trace.at - 1), trace },
            },
        };
    let next = |trace: Trace|
        if trace.spent() {
            Run { outcome: Outcome::Wait(Ask::Decide(current, actor, submission.command)), trace }
        } else {
            chosen(trace.reply(), trace.next())
        };
    let known = current.rules.dictionary_id@ == current.metadata.dictionary.id@;
    let found = |reply: Reply, trace: Trace|
        match reply {
            Reply::Refused(reason) => script::fail(
                trace,
                GameServiceError::UnsupportedCompatibility,
            ),
            reply => match script::reply_accepted(reply) {
                Some(_) => if known {
                    next(trace)
                } else {
                    script::fail(trace, GameServiceError::UnsupportedCompatibility)
                },
                None => Run { outcome: Outcome::Mismatch(trace.at - 1), trace },
            },
        };
    let ask = Ask::FindDictionary(current);
    assert forall|trace: Trace| #[trigger] stage(trace) == (if trace.spent() {
        Run { outcome: Outcome::Wait(ask), trace }
    } else {
        found(trace.reply(), trace.next())
    }) by {}
    stages::asks_outside(stage, ask, found, replies, from, store, fits);
    let second: Workflow<GameState, GameServiceError> = |trace: Trace| found(replies[from], trace);
    assert(second(Trace { replies, at: from + 1 }).outcome is Done);
    let deciding_ask = Ask::Decide(current, actor, submission.command);
    assert forall|trace: Trace| #[trigger] second(trace) == (if trace.spent() {
        Run { outcome: Outcome::Wait(deciding_ask), trace }
    } else {
        chosen(trace.reply(), trace.next())
    }) by {}
    stages::asks_outside(second, deciding_ask, chosen, replies, from + 1, store, fits);
    let third: Workflow<GameState, GameServiceError> = |trace: Trace|
        chosen(replies[from + 1], trace);
    assert(third(Trace { replies, at: from + 2 }).outcome is Done);
    let events = script::reply_events(replies[from + 1])->0;
    let last = persisting(submission, current, events);
    assert(third =~= last);
    decision_is_persisted(submission, current, events, outside, replies, from + 2, store, value);
    let to = stage(Trace { replies, at: from }).trace.at;
    assert(to == last(Trace { replies, at: from + 2 }).trace.at);
    assert(stages::stage_store(stage, replies, from, store, to) == stages::stage_store(
        second,
        replies,
        from + 1,
        store,
        to,
    ));
}

/// Whether a user holds a seat in a game as a player.
pub open spec fn holds_seat(
    store: Store,
    game_id: GameId,
    user_id: Seq<char>,
    player: PlayerId,
) -> bool {
    let seats = model::found(
        store.rows("game_players"@),
        seq![
            ("game_id"@, Relation::Equal, Datum::Text(ids::id_text_of(game_id))),
            ("user_id"@, Relation::Equal, Datum::Text(user_id)),
        ],
    );
    &&& seats.len() > 0
    &&& model::datum_in(seats[0], "game_player_id"@) matches Datum::Text(text) && ids::parsed_id(
        text,
    ) == Some(player)
}

/// Whether a submission was decided for the player whose seat the user holds, in a state of the
/// expected revision, and carried out in full.
pub open spec fn decided_for(
    before: Store,
    after: Store,
    submission: SubmissionView,
    state: GameState,
    outside: Outside,
    actor: PlayerId,
    current: GameState,
) -> bool {
    &&& holds_seat(before, submission.game_id, submission.user_id, actor)
    &&& current.revision == submission.expected_revision
    &&& decided(before, after, submission, state, outside, actor, current)
}

spec fn for_state(submission: SubmissionView, actor: PlayerId) -> spec_fn(GameState, Trace) -> Run<
    GameState,
    GameServiceError,
> {
    |current: GameState, trace: Trace|
        if current.revision != submission.expected_revision {
            script::fail(
                trace,
                GameServiceError::Conflict {
                    expected: submission.expected_revision,
                    actual: current.revision,
                },
            )
        } else {
            game_service::decide_run(trace, submission, actor, current)
        }
}

#[verifier::opaque]
spec fn for_player(submission: SubmissionView, actor: PlayerId) -> Workflow<
    GameState,
    GameServiceError,
> {
    |trace: Trace|
        script::chain(
            script::lift(
                journal::recover_game_run(trace, submission.game_id),
                |error: JournalError| GameServiceError::Journal(error),
            ),
            for_state(submission, actor),
        )
}

/// The part of a submission behind its player being known.
proof fn player_is_served(
    submission: SubmissionView,
    actor: PlayerId,
    outside: Outside,
    replies: Seq<Reply>,
    from: int,
    store: Store,
    value: GameState,
) -> (current: GameState)
    requires
        stages::underway(
            for_player(submission, actor),
            replies,
            from,
            store,
            answered_by(outside),
        ),
        for_player(submission, actor)(Trace { replies, at: from }).outcome == Outcome::<
            GameState,
            GameServiceError,
        >::Done(value),
    ensures
        current.revision == submission.expected_revision,
        from <= for_player(submission, actor)(Trace { replies, at: from }).trace.at
            <= replies.len(),
        decided(
            store,
            stages::stage_store(
                for_player(submission, actor),
                replies,
                from,
                store,
                for_player(submission, actor)(Trace { replies, at: from }).trace.at,
            ),
            submission,
            value,
            outside,
            actor,
            current,
        ),
{
    reveal(for_player);
    let fits = answered_by(outside);
    let stage = for_player(submission, actor);
    let start = Trace { replies, at: from };
    let game_id = submission.game_id;
    let first = recovery_laws::recovering(game_id);
    let last = for_state(submission, actor);
    assert forall|trace: Trace|
        match first(trace).outcome {
            Outcome::Wait(ask) => (#[trigger] stage(trace)).outcome == Outcome::<
                GameState,
                GameServiceError,
            >::Wait(ask),
            Outcome::Done(value) => stage(trace) == last(value, first(trace).trace),
            _ => true,
        } by {}
    assert forall|cut: int| 0 <= cut <= replies.len() implies steady::steady(
        first(start),
        #[trigger] stages::stage_run(first, replies, from, cut),
        replies,
        from,
        cut,
    ) by {
        steady::recovery_is_steady(replies, from, cut, game_id);
    }
    stages::goes_through(stage, first, last, replies, from, store, fits);
    assert(first(start).outcome is Done);
    let current = first(start).outcome->Done_0;
    let mid = first(start).trace.at;
    assert forall|trace: Trace| frames::only_reads(#[trigger] first(trace)) by {
        frames::recovery_only_reads(trace, game_id);
    }
    reading_leaves(first, replies, from, store, mid);
    let third: Workflow<GameState, GameServiceError> = |trace: Trace| last(current, trace);
    assert(third(Trace { replies, at: mid }).outcome is Done);
    let next = deciding(submission, actor, current);
    assert(third =~= next);
    decision_is_carried_out(submission, actor, current, outside, replies, mid, store, value);
    let to = stage(start).trace.at;
    assert(to == next(Trace { replies, at: mid }).trace.at);
    assert(stages::stage_store(stage, replies, from, store, to) == stages::stage_store(
        next,
        replies,
        mid,
        store,
        to,
    ));
    current
}

spec fn for_seat(submission: SubmissionView) -> spec_fn(Seq<Row>, Trace) -> Run<
    GameState,
    GameServiceError,
> {
    |rows: Seq<Row>, trace: Trace|
        match store::first_text_of(rows, "game_player_id"@) {
            None => script::fail(trace, GameServiceError::Unauthorized),
            Some(player) => match ids::parsed_id(player) {
                None => script::fail(trace, GameServiceError::MalformedIdentity),
                Some(player) => for_player(submission, player)(trace),
            },
        }
}

spec fn own_seat(submission: SubmissionView) -> Op {
    Op::select("game_players"@).where_text(
        "game_id"@,
        ids::id_text_of(submission.game_id),
    ).where_text("user_id"@, submission.user_id)
}

proof fn submitting_seeks_the_seat(submission: SubmissionView, trace: Trace)
    ensures
        transactions::submitting(submission)(trace) == script::query(
            trace,
            own_seat(submission),
            for_seat(submission),
        ),
{
    reveal(for_player);
    let seated = game_service::player_for_user_run(
        trace,
        submission.game_id,
        submission.user_id,
    );
    if let Outcome::Done(actor) = seated.outcome {
        let whole = |current: GameState, trace: Trace|
            if current.revision != submission.expected_revision {
                script::fail(
                    trace,
                    GameServiceError::Conflict {
                        expected: submission.expected_revision,
                        actual: current.revision,
                    },
                )
            } else {
                game_service::decide_run(trace, submission, actor, current)
            };
        assert(whole =~= for_state(submission, actor));
    }
}

/// A stage that seeks the user's seat and goes on with it.
proof fn seat_is_served(
    stage: Workflow<GameState, GameServiceError>,
    submission: SubmissionView,
    outside: Outside,
    replies: Seq<Reply>,
    from: int,
    store: Store,
    value: GameState,
) -> (who: (PlayerId, GameState))
    requires
        forall|trace: Trace| #[trigger]
            stage(trace) == script::query(trace, own_seat(submission), for_seat(submission)),
        stages::underway(
            stage,
            replies,
            from,
            store,
            answered_by(outside),
        ),
        stage(Trace { replies, at: from }).outcome == Outcome::<
            GameState,
            GameServiceError,
        >::Done(value),
    ensures
        decided_for(
            store,
            stages::stage_store(
                stage,
                replies,
                from,
                store,
                stage(Trace { replies, at: from }).trace.at,
            ),
            submission,
            value,
            outside,
            who.0,
            who.1,
        ),
{
    let fits = answered_by(outside);
    let seat = own_seat(submission);
    let rest = for_seat(submission);
    let rows = stages::asks_store(stage, seat, rest, replies, from, store, fits);
    let second: Workflow<GameState, GameServiceError> = |trace: Trace| rest(rows, trace);
    let middle = Trace { replies, at: from + 1 };
    assert(stage(Trace { replies, at: from }) == second(middle));
    let seats = model::found(store.rows("game_players"@), seat.filters);
    assert(seat.filters =~= seq![
        ("game_id"@, Relation::Equal, Datum::Text(ids::id_text_of(submission.game_id))),
        ("user_id"@, Relation::Equal, Datum::Text(submission.user_id)),
    ]);
    assert(model::executed(store, seat).1 == seats);
    assert(rows.len() > 0);
    model::shown_values(rows[0], seats[0], "game_player_id"@);
    let actor = ids::parsed_id(store::first_text_of(rows, "game_player_id"@)->0)->0;
    assert(holds_seat(store, submission.game_id, submission.user_id, actor));
    let next = for_player(submission, actor);
    assert(second =~= next);
    let current = player_is_served(
        submission,
        actor,
        outside,
        replies,
        from + 1,
        store,
        value,
    );
    let to = stage(Trace { replies, at: from }).trace.at;
    assert(stages::stage_store(stage, replies, from, store, to) == stages::stage_store(
        next,
        replies,
        from + 1,
        store,
        to,
    ));
    (actor, current)
}

/// The body of a submission.
proof fn body_is_carried_out(
    submission: SubmissionView,
    outside: Outside,
    replies: Seq<Reply>,
    from: int,
    store: Store,
    value: GameState,
) -> (who: (PlayerId, GameState))
    requires
        stages::underway(
            transactions::submitting(submission),
            replies,
            from,
            store,
            answered_by(outside),
        ),
        transactions::submitting(submission)(Trace { replies, at: from }).outcome == Outcome::<
            GameState,
            GameServiceError,
        >::Done(value),
    ensures
        decided_for(
            store,
            stages::stage_store(
                transactions::submitting(submission),
                replies,
                from,
                store,
                transactions::submitting(submission)(Trace { replies, at: from }).trace.at,
            ),
            submission,
            value,
            outside,
            who.0,
            who.1,
        ),
{
    let stage = transactions::submitting(submission);
    assert forall|trace: Trace| #[trigger] stage(trace) == script::query(
        trace,
        own_seat(submission),
        for_seat(submission),
    ) by {
        submitting_seeks_the_seat(submission, trace);
    }
    seat_is_served(stage, submission, outside, replies, from, store, value)
}

/// A stage that only reads leaves the store alone.
proof fn reading_leaves<T, E>(
    stage: Workflow<T, E>,
    replies: Seq<Reply>,
    from: int,
    store: Store,
    place: int,
)
    requires
        forall|trace: Trace| frames::only_reads(#[trigger] stage(trace)),
    ensures
        stages::stage_store(stage, replies, from, store, place) == store,
    decreases place - from,
{
    if place > from {
        reading_leaves(stage, replies, from, store, place - 1);
        assert(frames::only_reads(stages::stage_run(stage, replies, from, place - 1)));
    }
}

/// A submission that ends well was decided by the rules for the player whose seat the user holds,
/// in a state of the expected revision. Its command is recorded, its events follow the journal, the
/// new state is snapshotted, and the projections tell the game's whole journal: one row of history
/// for each of its events, and a summary with the score of its last play.
pub proof fn submissions_are_carried_out(
    submission: SubmissionView,
    outside: Outside,
    replies: Seq<Reply>,
    store: Store,
    state: GameState,
)
    requires
        model::served(
            transactions::transacting(transactions::submitting(submission)),
            replies,
            store,
        ),
        stages::met(
            transactions::transacting(transactions::submitting(submission)),
            replies,
            answered_by(outside),
        ),
        model::ending(
            transactions::transacting(transactions::submitting(submission)),
            replies,
        ) == Outcome::<GameState, GameServiceError>::Done(state),
    ensures
        exists|actor: PlayerId, current: GameState| #[trigger]
            decided_for(
                store,
                model::store_after(
                    transactions::transacting(transactions::submitting(submission)),
                    replies,
                    store,
                ),
                submission,
                state,
                outside,
                actor,
                current,
            ),
{
    let fits = answered_by(outside);
    let body = transactions::submitting(submission);
    let workflow = transactions::transacting(body);
    let count = replies.len() as int;
    let after = model::store_after(workflow, replies, store);
    assert(replies.take(count) =~= replies);
    assert forall|cut: int| 0 <= cut <= replies.len() implies steady::steady(
        body(Trace { replies, at: 1 }),
        #[trigger] stages::stage_run(body, replies, 1, cut),
        replies,
        1,
        cut,
    ) by {
        steady::submitting_is_steady(replies, 1, cut, submission);
    }
    transaction_is_in_order(submission, replies);
    stages::whole_is_underway(workflow, replies, store, fits);
    stages::goes_through_transaction(body, replies, 0, store, fits);
    stages::whole_is_played(workflow, replies, store, state);
    assert(stages::stage_run(workflow, replies, 0, 0).outcome is Wait);
    let (mid, between) = stages::committed(body, replies, 0, store, state, count, after);
    let begun = model::executed(store, Op::begin()).0;
    let (actor, current) = body_is_carried_out(submission, outside, replies, 1, begun, state);
    assert(forall|table: Seq<char>| #[trigger] begun.rows(table) == store.rows(table));
    assert(forall|table: Seq<char>| #[trigger] after.rows(table) == between.rows(table));
    assert(journal_rows(after, submission.game_id) == journal_rows(between, submission.game_id));
    assert(journaled(after, submission.game_id, outside.event_of) =~= journaled(
        between,
        submission.game_id,
        outside.event_of,
    ));
    assert(decided_for(store, after, submission, state, outside, actor, current)) by {
        reveal(carried_out);
    }
}

proof fn transaction_is_in_order(submission: SubmissionView, replies: Seq<Reply>)
    ensures
        stages::in_order(
            transactions::transacting(transactions::submitting(submission)),
            replies,
            0,
        ),
{
    let body = transactions::submitting(submission);
    let workflow = transactions::transacting(body);
    assert forall|cut: int| 0 <= cut <= replies.len() implies steady::steady(
        workflow(Trace { replies, at: 0 }),
        #[trigger] stages::stage_run(workflow, replies, 0, cut),
        replies,
        0,
        cut,
    ) by {
        if 0 < cut {
            assert(replies.take(cut)[0] == replies[0]);
        }
        steady::submitting_is_steady(replies, 1, cut, submission);
        let full = body(Trace { replies, at: 1 });
        let end = full.trace.at;
        if end < cut {
            assert(replies.take(cut)[end] == replies[end]);
        }
    }
}

} // verus!
