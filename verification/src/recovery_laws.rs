//! What recovery promises: a game is what its journal leads to, wherever it was snapshotted.
use crate::game::{GameEvent, GameId, GameState};
use crate::ids;
use crate::journal::{self, CommandView, EventRecord, JournalError};
use crate::journal_laws::{self, Engine};
use crate::model::{self, Record, Store, Workflow};
use crate::order;
use crate::script::{self, Ask, Outcome, Reply, Run, Trace};
use crate::snapshot_laws;
use crate::stages;
use crate::store::{self, Datum, Direction, Op, Relation, Row};
use vstd::prelude::*;

verus! {

/// The events that texts of a payload version stand for.
pub type EventReader = spec_fn(u64, Seq<char>) -> GameEvent;

/// The states that texts of a payload version stand for.
pub type StateReader = spec_fn(u64, Seq<char>) -> GameState;

/// Recovering a game.
pub open spec fn recovering(game_id: GameId) -> Workflow<GameState, JournalError> {
    |trace: Trace| journal::recover_game_run(trace, game_id)
}

/// Texts are read by the readers, and events applied by the engine.
pub open spec fn read_and_applied(
    event_of: EventReader,
    state_of: StateReader,
    engine: Engine,
) -> spec_fn(Ask, Reply) -> bool {
    |ask: Ask, reply: Reply|
        match ask {
            Ask::DecodeEvent(version, payload) => script::reply_event(reply) == Some(
                event_of(version, payload),
            ),
            Ask::DecodeState(version, payload) => script::reply_state(reply) == Some(
                state_of(version, payload),
            ),
            Ask::Apply(state, event) => script::reply_state(reply) == Some(engine(state, event)),
            _ => true,
        }
}

/// The journal rows of a game, in their order.
pub open spec fn journal_of(store: Store, game_id: GameId) -> Seq<Record> {
    model::found(store.rows("game_journal"@), game_filter(game_id))
}

/// What selects the rows of a game.
pub open spec fn game_filter(game_id: GameId) -> Seq<(Seq<char>, Relation, Datum)> {
    seq![("game_id"@, Relation::Equal, Datum::Text(ids::id_text_of(game_id)))]
}

/// Whether a journal row holds an event at a revision.
pub open spec fn holds_event(
    record: Record,
    revision: int,
    event: GameEvent,
    event_of: EventReader,
) -> bool {
    &&& model::datum_in(record, "revision"@) == Datum::Integer(revision)
    &&& model::datum_in(record, "command_id"@) is Text
    &&& model::datum_in(record, "idempotency_key"@) is Text
    &&& model::datum_in(record, "payload"@) is Text
    &&& model::datum_in(record, "payload_version"@) matches Datum::Integer(version) && 1 <= version
        <= 3 && event_of(version as u64, model::datum_in(record, "payload"@)->Text_0) == event
}

/// Whether a game's journal holds these events, one a revision from the first on.
pub open spec fn journal_holds(
    store: Store,
    game_id: GameId,
    events: Seq<GameEvent>,
    event_of: EventReader,
) -> bool {
    &&& journal_of(store, game_id).len() == events.len()
    &&& forall|i: int|
        0 <= i < events.len() ==> holds_event(
            #[trigger] journal_of(store, game_id)[i],
            i + 1,
            events[i],
            event_of,
        )
}

/// Whether a snapshot row holds what a game's first events lead to.
pub open spec fn holds_state(
    record: Record,
    events: Seq<GameEvent>,
    state_of: StateReader,
    engine: Engine,
) -> bool {
    &&& model::datum_in(record, "payload"@) is Text
    &&& model::datum_in(record, "payload_version"@) matches Datum::Integer(version) && 1 <= version
        <= 3 && {
        let state = state_of(version as u64, model::datum_in(record, "payload"@)->Text_0);
        &&& state.revision <= events.len()
        &&& journal_laws::replayed(engine, None, events.take(state.revision as int)) == Some(state)
    }
}

/// Whether every snapshot of a game holds what the game's first events lead to.
pub open spec fn snapshots_hold(
    store: Store,
    game_id: GameId,
    events: Seq<GameEvent>,
    state_of: StateReader,
    engine: Engine,
) -> bool {
    forall|i: int|
        0 <= i < store.rows("game_snapshots"@).len() && journal_laws::of_game(
            #[trigger] store.rows("game_snapshots"@)[i],
            game_id,
        ) ==> holds_state(store.rows("game_snapshots"@)[i], events, state_of, engine)
}

/// What is found behind a revision are the rows behind it.
proof fn tail_is_found(rows: Seq<Record>, game_id: GameId, after: u64)
    requires
        forall|i: int|
            0 <= i < model::found(rows, game_filter(game_id)).len() ==> model::datum_in(
                #[trigger] model::found(rows, game_filter(game_id))[i],
                "revision"@,
            ) == Datum::Integer(i + 1),
    ensures
        ({
            let hits = model::found(rows, game_filter(game_id));
            model::found(rows, journal_laws::journal_op(game_id, after).filters) == (
            if hits.len() <= after {
                Seq::empty()
            } else {
                hits.skip(after as int)
            })
        }),
    decreases rows.len(),
{
    let filters = journal_laws::journal_op(game_id, after).filters;
    let hits = model::found(rows, game_filter(game_id));
    if rows.len() > 0 {
        let less = rows.drop_last();
        let last = rows.last();
        let fewer = model::found(less, game_filter(game_id));
        assert(filters[0] == game_filter(game_id)[0]);
        assert(model::meets_all(last, filters) <==> model::meets(last, filters[0]) && model::meets(
            last,
            filters[1],
        )) by {
            if model::meets(last, filters[0]) && model::meets(last, filters[1]) {
                assert forall|k: int| 0 <= k < filters.len() implies model::meets(
                    last,
                    #[trigger] filters[k],
                ) by {
                    assert(k == 0 || k == 1);
                }
            }
        }
        assert(model::meets_all(last, game_filter(game_id)) <==> model::meets(last, filters[0]));
        assert forall|i: int| 0 <= i < fewer.len() implies model::datum_in(
            #[trigger] fewer[i],
            "revision"@,
        ) == Datum::Integer(i + 1) by {
            assert(fewer[i] == hits[i]);
        }
        tail_is_found(less, game_id, after);
        if model::meets(last, filters[0]) {
            assert(hits == fewer.push(last));
            assert(model::datum_in(hits[fewer.len() as int], "revision"@) == Datum::Integer(
                fewer.len() as int + 1,
            ));
            if fewer.len() >= after {
                assert(hits.skip(after as int) =~= (if fewer.len() <= after {
                    Seq::empty()
                } else {
                    fewer.skip(after as int)
                }).push(last));
            }
        }
    }
}

/// Applying the events from `index` on and ending with the state.
spec fn applying(events: Seq<GameEvent>, state: Option<GameState>, index: int) -> Workflow<
    GameState,
    JournalError,
> {
    |trace: Trace|
        script::chain(
            journal::apply_events_run(trace, state, events, index),
            |state: Option<GameState>, trace: Trace| script::done(trace, state->0),
        )
}

/// What follows when the event at `index` has been applied.
spec fn applied(events: Seq<GameEvent>, index: int) -> spec_fn(Reply, Trace) -> Run<
    GameState,
    JournalError,
> {
    |reply: Reply, trace: Trace|
        match reply {
            Reply::Refused(reason) => script::fail(trace, JournalError::Replay(reason)),
            reply => match script::reply_state(reply) {
                Some(state) => applying(events, Some(state), index + 1)(trace),
                None => Run { outcome: Outcome::Mismatch(trace.at - 1), trace },
            },
        }
}

/// Events that are applied by an engine lead to what they lead to.
proof fn applying_succeeds(
    events: Seq<GameEvent>,
    state: Option<GameState>,
    index: int,
    start: Option<GameState>,
    event_of: EventReader,
    state_of: StateReader,
    engine: Engine,
    replies: Seq<Reply>,
    from: int,
    store: Store,
)
    requires
        0 <= index <= events.len(),
        state == journal_laws::replayed(engine, start, events.take(index)),
        stages::underway(
            applying(events, state, index),
            replies,
            from,
            store,
            read_and_applied(event_of, state_of, engine),
        ),
    ensures
        applying(events, state, index)(Trace { replies, at: from }).outcome == Outcome::<
            GameState,
            JournalError,
        >::Done(journal_laws::replayed(engine, start, events)->0),
    decreases events.len() - index,
{
    let fits = read_and_applied(event_of, state_of, engine);
    let stage = applying(events, state, index);
    if index < events.len() {
        let ask = Ask::Apply(state, events[index]);
        let rest = applied(events, index);
        assert forall|trace: Trace| #[trigger] stage(trace) == (if trace.spent() {
            Run { outcome: Outcome::Wait(ask), trace }
        } else {
            rest(trace.reply(), trace.next())
        }) by {}
        stages::asks_outside(stage, ask, rest, replies, from, store, fits);
        let next_state = engine(state, events[index]);
        assert(script::reply_state(replies[from]) == Some(next_state));
        let second: Workflow<GameState, JournalError> = |trace: Trace| rest(replies[from], trace);
        let next = applying(events, Some(next_state), index + 1);
        assert forall|trace: Trace| #[trigger] second(trace) == next(trace) by {}
        stages::same_underway(second, next, replies, from + 1, store, fits);
        assert(events.take(index + 1).drop_last() =~= events.take(index));
        applying_succeeds(
            events,
            Some(next_state),
            index + 1,
            start,
            event_of,
            state_of,
            engine,
            replies,
            from + 1,
            store,
        );
    } else {
        assert(events.take(index) =~= events);
    }
}

/// Going on with the events behind a snapshot.
spec fn going_on(snapshot: Option<GameState>) -> spec_fn(Seq<EventRecord>, Trace) -> Run<
    GameState,
    JournalError,
> {
    |tail: Seq<EventRecord>, trace: Trace|
        if snapshot is None && tail.len() == 0 {
            script::fail(trace, JournalError::EmptyJournal)
        } else {
            applying(journal::record_events(tail), snapshot, 0)(trace)
        }
}

/// Reading the rows behind a snapshot from `index` on, and going on.
spec fn reading(
    game_id: GameId,
    rows: Seq<Row>,
    index: int,
    read: Seq<EventRecord>,
    snapshot: Option<GameState>,
) -> Workflow<GameState, JournalError> {
    |trace: Trace|
        script::chain(
            journal::journal_rows_run(trace, game_id, rows, index, read),
            going_on(snapshot),
        )
}

/// What follows when the event of a row has been read.
spec fn after_row(
    game_id: GameId,
    rows: Seq<Row>,
    index: int,
    read: Seq<EventRecord>,
    snapshot: Option<GameState>,
) -> spec_fn(Reply, Trace) -> Run<GameState, JournalError> {
    |reply: Reply, trace: Trace|
        match reply {
            Reply::Refused(reason) => script::fail(trace, JournalError::Serialization(reason)),
            reply => match script::reply_event(reply) {
                Some(event) => reading(
                    game_id,
                    rows,
                    index + 1,
                    read.push(
                        EventRecord {
                            game_id,
                            revision: store::unsigned_of(rows[index].integer_at("revision"@))->0,
                            command_id: rows[index].text_at("command_id"@)->0,
                            idempotency_key: rows[index].text_at("idempotency_key"@)->0,
                            payload_version: store::unsigned_of(
                                rows[index].integer_at("payload_version"@),
                            )->0 as u32,
                            event,
                        },
                    ),
                    snapshot,
                )(trace),
                None => Run { outcome: Outcome::Mismatch(trace.at - 1), trace },
            },
        }
}

/// Rows that hold events are read as them, and lead to what they lead to.
proof fn reading_succeeds(
    game_id: GameId,
    rows: Seq<Row>,
    records: Seq<Record>,
    events: Seq<GameEvent>,
    first: int,
    index: int,
    read: Seq<EventRecord>,
    snapshot: Option<GameState>,
    event_of: EventReader,
    state_of: StateReader,
    engine: Engine,
    replies: Seq<Reply>,
    from: int,
    store: Store,
)
    requires
        0 <= first,
        0 <= index <= events.len(),
        first + events.len() <= i64::MAX,
        model::all_shown(rows, records),
        records.len() == events.len(),
        forall|i: int|
            0 <= i < events.len() ==> holds_event(
                #[trigger] records[i],
                first + i + 1,
                events[i],
                event_of,
            ),
        journal::record_events(read) == events.take(index),
        stages::underway(
            reading(game_id, rows, index, read, snapshot),
            replies,
            from,
            store,
            read_and_applied(event_of, state_of, engine),
        ),
    ensures
        reading(game_id, rows, index, read, snapshot)(Trace { replies, at: from }).outcome == (
        if snapshot is None && events.len() == 0 {
            Outcome::Fail(JournalError::EmptyJournal)
        } else {
            Outcome::<GameState, JournalError>::Done(
                journal_laws::replayed(engine, snapshot, events)->0,
            )
        }),
    decreases events.len() - index,
{
    let fits = read_and_applied(event_of, state_of, engine);
    let stage = reading(game_id, rows, index, read, snapshot);
    assert(journal::record_events(read).len() == read.len());
    if index < events.len() {
        let row = rows[index];
        let record = records[index];
        assert(holds_event(records[index], first + index + 1, events[index], event_of));
        model::shown_values(row, record, "revision"@);
        model::shown_values(row, record, "payload_version"@);
        model::shown_values(row, record, "payload"@);
        model::shown_values(row, record, "command_id"@);
        model::shown_values(row, record, "idempotency_key"@);
        let version = store::unsigned_of(row.integer_at("payload_version"@))->0;
        let ask = Ask::DecodeEvent(version, row.text_at("payload"@)->0);
        let rest = after_row(game_id, rows, index, read, snapshot);
        assert forall|trace: Trace| #[trigger] stage(trace) == (if trace.spent() {
            Run { outcome: Outcome::Wait(ask), trace }
        } else {
            rest(trace.reply(), trace.next())
        }) by {}
        stages::asks_outside(stage, ask, rest, replies, from, store, fits);
        assert(script::reply_event(replies[from]) == Some(events[index]));
        let event = EventRecord {
            game_id,
            revision: store::unsigned_of(row.integer_at("revision"@))->0,
            command_id: row.text_at("command_id"@)->0,
            idempotency_key: row.text_at("idempotency_key"@)->0,
            payload_version: version as u32,
            event: events[index],
        };
        let second: Workflow<GameState, JournalError> = |trace: Trace| rest(replies[from], trace);
        let next = reading(game_id, rows, index + 1, read.push(event), snapshot);
        assert forall|trace: Trace| #[trigger] second(trace) == next(trace) by {}
        stages::same_underway(second, next, replies, from + 1, store, fits);
        assert(journal::record_events(read.push(event)) =~= journal::record_events(read).push(
            events[index],
        ));
        assert(events.take(index).push(events[index]) =~= events.take(index + 1));
        reading_succeeds(
            game_id,
            rows,
            records,
            events,
            first,
            index + 1,
            read.push(event),
            snapshot,
            event_of,
            state_of,
            engine,
            replies,
            from + 1,
            store,
        );
    } else {
        assert(events.take(index) =~= events);
        if !(snapshot is None && events.len() == 0) {
            let next = applying(events, snapshot, 0);
            assert forall|trace: Trace| #[trigger] stage(trace) == next(trace) by {}
            stages::same_underway(stage, next, replies, from, store, fits);
            assert(events.take(0) =~= Seq::empty());
            applying_succeeds(
                events,
                snapshot,
                0,
                snapshot,
                event_of,
                state_of,
                engine,
                replies,
                from,
                store,
            );
        }
    }
}

/// Going on from a snapshot.
spec fn from_snapshot(game_id: GameId, snapshot: Option<GameState>) -> Workflow<
    GameState,
    JournalError,
> {
    |trace: Trace|
        script::chain(
            journal::load_events_run(
                trace,
                game_id,
                match snapshot {
                    Some(state) => state.revision,
                    None => 0,
                },
            ),
            going_on(snapshot),
        )
}

/// From a snapshot of its first events a game is recovered as what all its events lead to.
proof fn snapshot_succeeds(
    game_id: GameId,
    events: Seq<GameEvent>,
    snapshot: Option<GameState>,
    event_of: EventReader,
    state_of: StateReader,
    engine: Engine,
    replies: Seq<Reply>,
    from: int,
    store: Store,
)
    requires
        events.len() <= i64::MAX,
        journal_holds(store, game_id, events, event_of),
        match snapshot {
            Some(state) => state.revision <= events.len() && journal_laws::replayed(
                engine,
                None,
                events.take(state.revision as int),
            ) == Some(state),
            None => true,
        },
        stages::underway(
            from_snapshot(game_id, snapshot),
            replies,
            from,
            store,
            read_and_applied(event_of, state_of, engine),
        ),
    ensures
        from_snapshot(game_id, snapshot)(Trace { replies, at: from }).outcome == (
        if events.len() == 0 {
            Outcome::Fail(JournalError::EmptyJournal)
        } else {
            Outcome::<GameState, JournalError>::Done(
                journal_laws::replayed(engine, None, events)->0,
            )
        }),
{
    let fits = read_and_applied(event_of, state_of, engine);
    let stage = from_snapshot(game_id, snapshot);
    let first: u64 = match snapshot {
        Some(state) => state.revision,
        None => 0,
    };
    let op = journal_laws::journal_op(game_id, first);
    let read = |rows: Seq<Row>, trace: Trace|
        reading(game_id, rows, 0, Seq::empty(), snapshot)(trace);
    assert forall|trace: Trace| #[trigger] stage(trace) == script::query(trace, op, read) by {}
    let rows = stages::asks_store(stage, op, read, replies, from, store, fits);
    let hits = journal_of(store, game_id);
    assert forall|i: int| 0 <= i < hits.len() implies model::datum_in(
        #[trigger] hits[i],
        "revision"@,
    ) == Datum::Integer(i + 1) by {
        assert(holds_event(journal_of(store, game_id)[i], i + 1, events[i], event_of));
    }
    tail_is_found(store.rows("game_journal"@), game_id, first);
    let records = hits.skip(first as int);
    if hits.len() <= first {
        assert(records =~= Seq::empty());
    }
    let before = |left: Record, right: Record|
        model::sorts_before(left, right, "revision"@, Direction::Ascending);
    assert forall|i: int, j: int| 0 <= i < j < records.len() implies !before(
        #[trigger] records[j],
        #[trigger] records[i],
    ) by {
        assert(records[i] == hits[first + i]);
        assert(records[j] == hits[first + j]);
    }
    order::arranged_in_place(records, before);
    assert(model::executed(store, op).1 == records);
    let later = events.skip(first as int);
    assert forall|i: int| 0 <= i < later.len() implies holds_event(
        #[trigger] records[i],
        first + i + 1,
        later[i],
        event_of,
    ) by {
        assert(holds_event(
            journal_of(store, game_id)[first + i],
            first + i + 1,
            events[first + i],
            event_of,
        ));
    }
    let second: Workflow<GameState, JournalError> = |trace: Trace| read(rows, trace);
    let next = reading(game_id, rows, 0, Seq::empty(), snapshot);
    assert forall|trace: Trace| #[trigger] second(trace) == next(trace) by {}
    stages::same_underway(second, next, replies, from + 1, store, fits);
    assert(journal::record_events(Seq::empty()) =~= later.take(0));
    reading_succeeds(
        game_id,
        rows,
        records,
        later,
        first as int,
        0,
        Seq::empty(),
        snapshot,
        event_of,
        state_of,
        engine,
        replies,
        from + 1,
        store,
    );
    let earlier = events.take(first as int);
    assert(earlier + later =~= events);
    journal_laws::replays_compose(engine, None, earlier, later);
    if snapshot is None {
        assert(earlier =~= Seq::empty());
    }
}

/// A game is recovered as what the events in its journal lead to, whichever snapshots of it were
/// stored on the way: recovery reads the latest of them, if there is one, and the events behind
/// it. A game without events has no snapshot and is not recovered.
pub proof fn games_are_recovered(
    game_id: GameId,
    events: Seq<GameEvent>,
    event_of: EventReader,
    state_of: StateReader,
    engine: Engine,
    store: Store,
    replies: Seq<Reply>,
)
    requires
        events.len() <= i64::MAX,
        journal_holds(store, game_id, events, event_of),
        snapshots_hold(store, game_id, events, state_of, engine),
        model::served(recovering(game_id), replies, store),
        stages::met(
            recovering(game_id),
            replies,
            read_and_applied(event_of, state_of, engine),
        ),
        !(model::ending(recovering(game_id), replies) is Wait),
    ensures
        events.len() == 0 ==> model::ending(recovering(game_id), replies) == Outcome::<
            GameState,
            JournalError,
        >::Fail(JournalError::EmptyJournal),
        events.len() > 0 ==> model::ending(recovering(game_id), replies) == Outcome::<
            GameState,
            JournalError,
        >::Done(journal_laws::replayed(engine, None, events)->0),
{
    let fits = read_and_applied(event_of, state_of, engine);
    let stage = recovering(game_id);
    let op = Op::select("game_snapshots"@).where_text("game_id"@, ids::id_text_of(game_id)).sort(
        "revision"@,
        Direction::Descending,
    );
    stages::whole_is_underway(stage, replies, store, fits);
    let decoded = |reply: Reply, trace: Trace|
        match reply {
            Reply::Refused(reason) => script::fail(trace, JournalError::Serialization(reason)),
            reply => match script::reply_state(reply) {
                Some(state) => from_snapshot(game_id, Some(state))(trace),
                None => Run { outcome: Outcome::Mismatch(trace.at - 1), trace },
            },
        };
    let read = |rows: Seq<Row>, trace: Trace|
        if rows.len() == 0 {
            from_snapshot(game_id, None)(trace)
        } else {
            match (
                store::unsigned_of(rows[0].integer_at("payload_version"@)),
                rows[0].text_at("payload"@),
            ) {
                (Some(version), Some(payload)) => if !journal::known_version(version) {
                    script::fail(trace, JournalError::UnsupportedPayloadVersion(version))
                } else if trace.spent() {
                    Run { outcome: Outcome::Wait(Ask::DecodeState(version, payload)), trace }
                } else {
                    decoded(trace.reply(), trace.next())
                },
                _ => script::fail(trace, JournalError::MalformedRow),
            }
        };
    assert forall|trace: Trace| #[trigger] stage(trace) == script::query(trace, op, read) by {}
    let rows = stages::asks_store(stage, op, read, replies, 0, store, fits);
    let second: Workflow<GameState, JournalError> = |trace: Trace| read(rows, trace);
    let table = store.rows("game_snapshots"@);
    let hits = model::found(table, op.filters);
    let before = |left: Record, right: Record|
        model::sorts_before(left, right, "revision"@, Direction::Descending);
    let shown = order::arranged(hits, before);
    assert(model::executed(store, op).1 == shown);
    if rows.len() == 0 {
        let next = from_snapshot(game_id, None);
        assert forall|trace: Trace| #[trigger] second(trace) == next(trace) by {}
        stages::same_underway(second, next, replies, 1, store, fits);
        snapshot_succeeds(
            game_id,
            events,
            None,
            event_of,
            state_of,
            engine,
            replies,
            1,
            store,
        );
    } else {
        let record = shown[0];
        order::arranged_contains(hits, before, record);
        model::found_rows(table, op.filters);
        let at = choose|at: int| 0 <= at < hits.len() && hits[at] == record;
        assert(model::meets_all(hits[at], op.filters));
        assert(model::meets(record, op.filters[0]));
        let place = choose|place: int| 0 <= place < table.len() && table[place] == hits[at];
        assert(journal_laws::of_game(table[place], game_id));
        assert(holds_state(table[place], events, state_of, engine));
        assert(model::shows(rows[0], record));
        model::shown_values(rows[0], record, "payload_version"@);
        model::shown_values(rows[0], record, "payload"@);
        let version = store::unsigned_of(rows[0].integer_at("payload_version"@))->0;
        let payload = rows[0].text_at("payload"@)->0;
        let ask = Ask::DecodeState(version, payload);
        assert forall|trace: Trace| #[trigger] second(trace) == (if trace.spent() {
            Run { outcome: Outcome::Wait(ask), trace }
        } else {
            decoded(trace.reply(), trace.next())
        }) by {}
        stages::asks_outside(second, ask, decoded, replies, 1, store, fits);
        let state = state_of(version, payload);
        assert(script::reply_state(replies[1]) == Some(state));
        let third: Workflow<GameState, JournalError> = |trace: Trace| decoded(replies[1], trace);
        let next = from_snapshot(game_id, Some(state));
        assert forall|trace: Trace| #[trigger] third(trace) == next(trace) by {}
        stages::same_underway(third, next, replies, 2, store, fits);
        snapshot_succeeds(
            game_id,
            events,
            Some(state),
            event_of,
            state_of,
            engine,
            replies,
            2,
            store,
        );
    }
}

/// A journal that holds events holds those of an append behind them, where the texts in which the
/// append wrote its events are read as them.
pub proof fn appends_extend_the_journal(
    command: CommandView,
    earlier: Seq<GameEvent>,
    events: Seq<&GameEvent>,
    event_of: EventReader,
    replies: Seq<Reply>,
    store: Store,
)
    requires
        journal_holds(store, command.game_id, earlier, event_of),
        command.expected_revision == earlier.len(),
        model::served(journal_laws::appending(command, events), replies, store),
        model::ending(journal_laws::appending(command, events), replies) is Done,
        forall|i: int|
            0 <= i < events.len() ==> event_of(
                3,
                #[trigger] journal_laws::payload_at(replies, i),
            ) == *events[i],
    ensures
        journal_holds(
            model::store_after(journal_laws::appending(command, events), replies, store),
            command.game_id,
            earlier + journal::event_values(events),
            event_of,
        ),
{
    let after = model::store_after(journal_laws::appending(command, events), replies, store);
    let count = events.len() as int;
    let added = journal_laws::journal_records(command, replies, count);
    let filters = game_filter(command.game_id);
    journal_laws::appended_commands_are_recorded(command, events, replies, store);
    model::found_in_both(store.rows("game_journal"@), added, filters);
    assert forall|i: int| 0 <= i < added.len() implies model::meets_all(
        #[trigger] added[i],
        filters,
    ) by {
        journal_laws::journal_record_holds(command, journal_laws::payload_at(replies, i), i);
        assert(model::meets(added[i], filters[0]));
    }
    model::all_found(added, filters);
    let held = journal_of(store, command.game_id);
    assert(journal_of(after, command.game_id) == held + added);
    let all = earlier + journal::event_values(events);
    assert forall|i: int| 0 <= i < all.len() implies holds_event(
        #[trigger] journal_of(after, command.game_id)[i],
        i + 1,
        all[i],
        event_of,
    ) by {
        if i < earlier.len() {
            assert(holds_event(held[i], i + 1, earlier[i], event_of));
        } else {
            let index = i - earlier.len();
            journal_laws::journal_record_holds(
                command,
                journal_laws::payload_at(replies, index),
                index,
            );
            assert(added[index] == journal_laws::journal_record(
                command,
                journal_laws::payload_at(replies, index),
                index,
            ));
        }
    }
}

/// Snapshots that hold what a game's first events lead to still do when one more of them is
/// stored, where the text in which it was written is read as it.
pub proof fn snapshots_stay_true(
    game_id: GameId,
    state: GameState,
    created_at_ms: i64,
    events: Seq<GameEvent>,
    state_of: StateReader,
    engine: Engine,
    replies: Seq<Reply>,
    store: Store,
)
    requires
        snapshots_hold(store, game_id, events, state_of, engine),
        state.revision <= events.len(),
        journal_laws::replayed(engine, None, events.take(state.revision as int)) == Some(state),
        model::served(
            snapshot_laws::keeping(game_id, state, created_at_ms),
            replies,
            store,
        ),
        model::ending(snapshot_laws::keeping(game_id, state, created_at_ms), replies) is Done,
        state_of(3, snapshot_laws::written_state(replies)) == state,
    ensures
        snapshots_hold(
            model::store_after(
                snapshot_laws::keeping(game_id, state, created_at_ms),
                replies,
                store,
            ),
            game_id,
            events,
            state_of,
            engine,
        ),
{
    let after = model::store_after(
        snapshot_laws::keeping(game_id, state, created_at_ms),
        replies,
        store,
    );
    let payload = snapshot_laws::written_state(replies);
    let delete = journal::delete_snapshot_op(game_id, state.revision);
    let table = store.rows("game_snapshots"@);
    let kept = model::left(table, delete.filters);
    snapshot_laws::snapshot_is_kept(game_id, state, created_at_ms, replies, store);
    snapshot_laws::record_holds(game_id, state.revision, payload, created_at_ms);
    model::left_rows(table, delete.filters);
    let rows = after.rows("game_snapshots"@);
    assert forall|i: int|
        0 <= i < rows.len() && journal_laws::of_game(
            #[trigger] rows[i],
            game_id,
        ) implies holds_state(rows[i], events, state_of, engine) by {
        if i < kept.len() {
            assert(rows[i] == kept[i]);
            let place = choose|place: int| 0 <= place < table.len() && table[place] == kept[i];
            assert(journal_laws::of_game(table[place], game_id));
        }
    }
}

} // verus!
