//! When an append succeeds.
use crate::exactly_once;
use crate::game::GameEvent;
use crate::journal::{self, CommandView, JournalError};
use crate::journal_laws;
use crate::model::{self, Record, Store, Workflow};
use crate::script::{self, Ask, Outcome, Reply, Run, Trace};
use crate::stages;
use crate::steady;
use crate::store::{self, Datum, Op, Relation, Row};
use crate::transactions;
use vstd::prelude::*;

verus! {

/// Events are written as texts.
pub open spec fn events_are_written() -> spec_fn(Ask, Reply) -> bool {
    |ask: Ask, reply: Reply| ask is EncodeEvent ==> reply is Text
}

/// Inserting the events of a command from `index` on.
pub open spec fn inserting(command: CommandView, events: Seq<&GameEvent>, index: int) -> Workflow<
    (),
    JournalError,
> {
    |trace: Trace| journal::insert_events_run(trace, command, events, index)
}

pub proof fn inserting_is_in_order(
    command: CommandView,
    events: Seq<&GameEvent>,
    index: int,
    replies: Seq<Reply>,
    from: int,
)
    requires
        0 <= from,
    ensures
        stages::in_order(inserting(command, events, index), replies, from),
{
    let stage = inserting(command, events, index);
    assert forall|cut: int| 0 <= cut <= replies.len() implies steady::steady(
        stage(Trace { replies, at: from }),
        #[trigger] stages::stage_run(stage, replies, from, cut),
        replies,
        from,
        cut,
    ) by {
        steady::inserting_is_steady(replies, from, cut, command, events, index);
    }
}

/// What follows when the event at `index` has been written as `reply`.
pub open spec fn inserted(command: CommandView, events: Seq<&GameEvent>, index: int) -> spec_fn(
    Reply,
    Trace,
) -> Run<(), JournalError> {
    |reply: Reply, trace: Trace|
        match reply {
            Reply::Refused(reason) => script::fail(trace, JournalError::Serialization(reason)),
            Reply::Text(payload) => script::query(
                trace,
                journal::insert_event_op(
                    command,
                    (command.expected_revision + index + 1) as u64,
                    payload@,
                ),
                |rows: Seq<Row>, trace: Trace|
                    journal::insert_events_run(trace, command, events, index + 1),
            ),
            _ => Run { outcome: Outcome::Mismatch(trace.at - 1), trace },
        }
}

/// An insertion whose revisions fit asks for the text of its first event.
pub proof fn insertion_begins(command: CommandView, events: Seq<&GameEvent>, index: int)
    requires
        0 <= index < events.len(),
        command.expected_revision + index + 1 <= i64::MAX,
    ensures
        forall|trace: Trace| #[trigger]
            inserting(command, events, index)(trace) == (if trace.spent() {
                Run { outcome: Outcome::Wait(Ask::EncodeEvent(*events[index])), trace }
            } else {
                inserted(command, events, index)(trace.reply(), trace.next())
            }),
{
    assert forall|trace: Trace| #[trigger] inserting(command, events, index)(trace) == (
    if trace.spent() {
        Run { outcome: Outcome::Wait(Ask::EncodeEvent(*events[index])), trace }
    } else {
        inserted(command, events, index)(trace.reply(), trace.next())
    }) by {
        let revision = (command.expected_revision + index + 1) as u64;
        if !trace.spent() {
            if let Reply::Text(payload) = trace.reply() {
                let op = journal::insert_event_op(command, revision, payload@);
                let next = |rows: Seq<Row>, trace: Trace|
                    journal::insert_events_run(trace, command, events, index + 1);
                assert(script::perform(
                    trace.next(),
                    op,
                    |trace: Trace| journal::insert_events_run(trace, command, events, index + 1),
                ) == script::query(trace.next(), op, next));
            }
        }
    }
}

/// An insertion whose events can be written ends well.
proof fn insertion_succeeds(
    command: CommandView,
    events: Seq<&GameEvent>,
    index: int,
    replies: Seq<Reply>,
    from: int,
    store: Store,
)
    requires
        0 <= index <= events.len(),
        command.expected_revision + events.len() <= i64::MAX,
        stages::underway(
            inserting(command, events, index),
            replies,
            from,
            store,
            events_are_written(),
        ),
    ensures
        journal::insert_events_run(Trace { replies, at: from }, command, events, index).outcome
            == Outcome::<(), JournalError>::Done(()),
    decreases events.len() - index,
{
    if index < events.len() {
        let stage = inserting(command, events, index);
        insertion_begins(command, events, index);
        stages::asks_outside(
            stage,
            Ask::EncodeEvent(*events[index]),
            inserted(command, events, index),
            replies,
            from,
            store,
            events_are_written(),
        );
        assert(replies[from] is Text);
        let second: Workflow<(), JournalError> = |trace: Trace|
            inserted(command, events, index)(replies[from], trace);
        let payload = replies[from]->Text_0@;
        let op = journal::insert_event_op(
            command,
            (command.expected_revision + index + 1) as u64,
            payload,
        );
        let rest = |rows: Seq<Row>, trace: Trace|
            journal::insert_events_run(trace, command, events, index + 1);
        let rows = stages::asks_store(
            second,
            op,
            rest,
            replies,
            from + 1,
            store,
            events_are_written(),
        );
        let next = model::executed(store, op).0;
        let third: Workflow<(), JournalError> = |trace: Trace| rest(rows, trace);
        stages::same_underway(
            third,
            inserting(command, events, index + 1),
            replies,
            from + 2,
            next,
            events_are_written(),
        );
        insertion_succeeds(command, events, index + 1, replies, from + 2, next);
    }
}

/// An insertion writes the journal only.
pub proof fn insertion_keeps_tables(
    command: CommandView,
    events: Seq<&GameEvent>,
    index: int,
    replies: Seq<Reply>,
    from: int,
    store: Store,
    to: int,
    after: Store,
)
    requires
        0 <= index <= events.len(),
        stages::played(inserting(command, events, index), replies, from, store, (), to, after),
    ensures
        forall|table: Seq<char>|
            table != "game_journal"@ ==> #[trigger] after.rows(table) == store.rows(table),
    decreases events.len() - index,
{
    let stage = inserting(command, events, index);
    if index >= events.len() {
        stages::ended(stage, replies, from, store, (), to, after, ());
    } else {
        assert(command.expected_revision + index + 1 <= i64::MAX);
        insertion_begins(command, events, index);
        inserting_is_in_order(command, events, index + 1, replies, from + 2);
        let count = replies.len() as int;
        assert(replies.take(count) =~= replies);
        let next_stage = inserting(command, events, index + 1);
        assert(stages::stage_run(next_stage, replies, from + 2, count)
            == journal::insert_events_run(
            Trace { replies, at: from + 2 },
            command,
            events,
            index + 1,
        ));
        assert(to >= from + 2);
        stages::answered(
            stage,
            Ask::EncodeEvent(*events[index]),
            inserted(command, events, index),
            replies,
            from,
            store,
            (),
            to,
            after,
        );
        let second: Workflow<(), JournalError> = |trace: Trace|
            inserted(command, events, index)(replies[from], trace);
        let op = journal::insert_event_op(
            command,
            (command.expected_revision + index + 1) as u64,
            replies[from]->Text_0@,
        );
        let rest = |rows: Seq<Row>, trace: Trace|
            journal::insert_events_run(trace, command, events, index + 1);
        let rows = stages::queried(second, op, rest, replies, from + 1, store, (), to, after);
        let next = model::executed(store, op).0;
        let third: Workflow<(), JournalError> = |trace: Trace| rest(rows, trace);
        stages::same_stage(third, next_stage, replies, from + 2, next, (), to, after);
        insertion_keeps_tables(command, events, index + 1, replies, from + 2, next, to, after);
        assert forall|table: Seq<char>| table != "game_journal"@ implies #[trigger] after.rows(
            table,
        ) == store.rows(table) by {
            assert(next.rows(table) == store.rows(table));
        }
    }
}

/// Where the key is unique, one row at most is found by it.
pub proof fn one_is_found(rows: Seq<Record>, filters: Seq<(Seq<char>, Relation, Datum)>)
    requires
        filters.len() > 0,
        filters[0].1 == Relation::Equal,
        filters[0].2 is Text,
        exactly_once::unique_text(rows, filters[0].0),
    ensures
        model::found(rows, filters).len() <= 1,
    decreases rows.len(),
{
    if rows.len() > 0 {
        let less = rows.drop_last();
        assert(exactly_once::unique_text(less, filters[0].0)) by {
            assert forall|i: int, j: int|
                0 <= i < j < less.len() && (model::datum_in(#[trigger] less[i], filters[0].0)
                    is Text) implies model::datum_in(less[i], filters[0].0) != model::datum_in(
                #[trigger] less[j],
                filters[0].0,
            ) by {
                assert(less[i] == rows[i] && less[j] == rows[j]);
            }
        }
        one_is_found(less, filters);
        if model::meets_all(rows.last(), filters) {
            model::found_rows(less, filters);
            if model::found(less, filters).len() > 0 {
                let i = choose|i: int|
                    0 <= i < less.len() && model::meets_all(#[trigger] less[i], filters);
                assert(model::meets(less[i], filters[0]));
                assert(model::meets(rows.last(), filters[0]));
                assert(model::datum_in(rows[i], filters[0].0) != model::datum_in(
                    rows[rows.len() - 1],
                    filters[0].0,
                ));
            }
        }
    }
}

/// What an append does when its insertions are done, against a game that stands where it should.
proof fn finish_succeeds(
    command: CommandView,
    count: int,
    replies: Seq<Reply>,
    from: int,
    store: Store,
)
    requires
        0 <= count,
        command.expected_revision + count <= i64::MAX,
        exactly_once::unique_text(store.rows("games"@), "game_id"@),
        journal_laws::stands_at(store, command.game_id, command.expected_revision as int),
        stages::underway(
            |trace: Trace| journal::finish_append_run(trace, command, count),
            replies,
            from,
            store,
            events_are_written(),
        ),
    ensures
        journal::finish_append_run(Trace { replies, at: from }, command, count).outcome
            == Outcome::<u64, JournalError>::Done((command.expected_revision + count) as u64),
{
    let resulting = (command.expected_revision + count) as u64;
    let stage: Workflow<u64, JournalError> = |trace: Trace|
        journal::finish_append_run(trace, command, count);
    let record = journal::insert_command_op(command, resulting);
    let advance = journal::advance_revision_op(command, resulting);
    let end = |updated: Seq<Row>, trace: Trace|
        if updated.len() != 1 {
            script::fail::<u64, JournalError>(trace, JournalError::ConcurrentConflict)
        } else {
            script::done(trace, resulting)
        };
    let rest = |rows: Seq<Row>, trace: Trace| script::query(trace, advance, end);
    assert forall|trace: Trace| #[trigger] stage(trace) == script::query(trace, record, rest) by {}
    let rows = stages::asks_store(
        stage,
        record,
        rest,
        replies,
        from,
        store,
        events_are_written(),
    );
    let next = model::executed(store, record).0;
    let second: Workflow<u64, JournalError> = |trace: Trace| rest(rows, trace);
    let updated = stages::asks_store(
        second,
        advance,
        end,
        replies,
        from + 1,
        next,
        events_are_written(),
    );
    journal_laws::written_tables_differ();
    let games = store.rows("games"@);
    assert(next.rows("games"@) == games);
    one_is_found(games, advance.filters);
    model::found_rows(games, advance.filters);
    let i = choose|i: int|
        0 <= i < games.len() && journal_laws::of_game(#[trigger] games[i], command.game_id);
    assert forall|k: int| 0 <= k < advance.filters.len() implies model::meets(
        games[i],
        #[trigger] advance.filters[k],
    ) by {
        assert(k == 0 || k == 1);
    }
    assert(model::meets_all(games[i], advance.filters));
    assert(updated.len() == 1);
}

/// An append against the game's revision, under a command and a retry key that are not used, whose
/// events can be written, succeeds: the game's new revision is one more for each event.
pub proof fn appends_succeed(
    command: CommandView,
    events: Seq<&GameEvent>,
    replies: Seq<Reply>,
    store: Store,
)
    requires
        exactly_once::unique_text(store.rows("games"@), "game_id"@),
        journal_laws::stands_at(store, command.game_id, command.expected_revision as int),
        !journal_laws::used(store, command),
        command.expected_revision + events.len() <= i64::MAX,
        model::served(journal_laws::appending(command, events), replies, store),
        stages::met(journal_laws::appending(command, events), replies, events_are_written()),
        !(model::ending(journal_laws::appending(command, events), replies) is Wait),
    ensures
        model::ending(journal_laws::appending(command, events), replies) == Outcome::<
            u64,
            JournalError,
        >::Done((command.expected_revision + events.len()) as u64),
        journal_laws::stands_at(
            model::store_after(journal_laws::appending(command, events), replies, store),
            command.game_id,
            command.expected_revision + events.len(),
        ),
        journal_laws::used(
            model::store_after(journal_laws::appending(command, events), replies, store),
            command,
        ),
{
    let fits = events_are_written();
    let workflow = journal_laws::appending(command, events);
    let body = transactions::appending(command, events);
    stages::whole_is_underway(workflow, replies, store, fits);
    assert forall|cut: int| 0 <= cut <= replies.len() implies steady::steady(
        body(Trace { replies, at: 1 }),
        #[trigger] stages::stage_run(body, replies, 1, cut),
        replies,
        1,
        cut,
    ) by {
        steady::appending_is_steady(replies, 1, cut, command, events);
    }
    stages::goes_through_transaction(body, replies, 0, store, fits);
    let begun = model::executed(store, Op::begin()).0;
    assert(forall|table: Seq<char>| #[trigger] begun.rows(table) == store.rows(table));
    body_succeeds(command, events, replies, 1, begun);
    journal_laws::appends_advance_the_game(
        command,
        events,
        replies,
        store,
        command.expected_revision as int,
    );
}

/// The statements of an append, one after the other.
pub proof fn body_succeeds(
    command: CommandView,
    events: Seq<&GameEvent>,
    replies: Seq<Reply>,
    from: int,
    store: Store,
)
    requires
        exactly_once::unique_text(store.rows("games"@), "game_id"@),
        journal_laws::stands_at(store, command.game_id, command.expected_revision as int),
        !journal_laws::used(store, command),
        command.expected_revision + events.len() <= i64::MAX,
        stages::underway(
            transactions::appending(command, events),
            replies,
            from,
            store,
            events_are_written(),
        ),
    ensures
        journal::append_events_run(Trace { replies, at: from }, command, events).outcome
            == Outcome::<u64, JournalError>::Done(
            (command.expected_revision + events.len()) as u64,
        ),
{
    let fits = events_are_written();
    let body = transactions::appending(command, events);
    let by_game = journal_laws::revision_op(command.game_id);
    let rest = |rows: Seq<Row>, trace: Trace|
        match store::first_integer_of(rows, "canonical_revision"@) {
            None => script::fail(trace, JournalError::GameNotFound),
            Some(actual) => if actual < 0 {
                script::fail(trace, JournalError::InvalidRevision)
            } else if actual != command.expected_revision {
                script::fail(
                    trace,
                    JournalError::Conflict {
                        expected: command.expected_revision,
                        actual: actual as u64,
                    },
                )
            } else {
                journal::append_unused_run(trace, command, events)
            },
        };
    let rows = stages::asks_store(body, by_game, rest, replies, from, store, fits);
    let games = store.rows("games"@);
    let hits = model::found(games, by_game.filters);
    model::found_rows(games, by_game.filters);
    let i = choose|i: int|
        0 <= i < games.len() && journal_laws::of_game(#[trigger] games[i], command.game_id);
    journal_laws::meets_text(games[i], by_game);
    assert(model::executed(store, by_game).1 == hits);
    assert(hits.len() > 0);
    journal_laws::meets_text(hits[0], by_game);
    let at = choose|at: int| 0 <= at < games.len() && games[at] == hits[0];
    assert(journal_laws::of_game(games[at], command.game_id));
    model::shown_values(rows[0], hits[0], "canonical_revision"@);
    let second: Workflow<u64, JournalError> = |trace: Trace| rest(rows, trace);
    let by_id = journal_laws::command_op(command);
    let by_key = journal_laws::key_op(command);
    let appended = |trace: Trace|
        script::chain(
            journal::insert_events_run(trace, command, events, 0),
            |inserted: (), trace: Trace|
                journal::finish_append_run(trace, command, events.len() as int),
        );
    let keyed = |used: Seq<Row>, trace: Trace|
        if used.len() > 0 {
            script::fail(trace, JournalError::DuplicateCommand)
        } else {
            appended(trace)
        };
    let named = |used: Seq<Row>, trace: Trace|
        if used.len() > 0 {
            script::fail(trace, JournalError::DuplicateCommand)
        } else {
            script::query(trace, by_key, keyed)
        };
    assert forall|trace: Trace| #[trigger] second(trace) == script::query(
        trace,
        by_id,
        named,
    ) by {}
    let same_id = stages::asks_store(second, by_id, named, replies, from + 1, store, fits);
    let commands = store.rows("game_commands"@);
    model::found_rows(commands, by_id.filters);
    model::found_rows(commands, by_key.filters);
    if model::found(commands, by_id.filters).len() > 0 {
        let i = choose|i: int|
            0 <= i < commands.len() && model::meets_all(#[trigger] commands[i], by_id.filters);
        journal_laws::meets_texts(commands[i], by_id);
        assert(journal_laws::of_game(commands[i], command.game_id));
    }
    if model::found(commands, by_key.filters).len() > 0 {
        let i = choose|i: int|
            0 <= i < commands.len() && model::meets_all(#[trigger] commands[i], by_key.filters);
        journal_laws::meets_texts(commands[i], by_key);
        assert(journal_laws::of_game(commands[i], command.game_id));
    }
    let third: Workflow<u64, JournalError> = |trace: Trace| named(same_id, trace);
    let same_key = stages::asks_store(third, by_key, keyed, replies, from + 2, store, fits);
    let fourth: Workflow<u64, JournalError> = |trace: Trace| keyed(same_key, trace);
    let finish = |inserted: (), trace: Trace|
        journal::finish_append_run(trace, command, events.len() as int);
    let first = inserting(command, events, 0);
    inserting_is_in_order(command, events, 0, replies, from + 3);
    assert forall|trace: Trace|
        match first(trace).outcome {
            Outcome::Wait(ask) => (#[trigger] fourth(trace)).outcome == Outcome::<
                u64,
                JournalError,
            >::Wait(ask),
            Outcome::Done(value) => fourth(trace) == finish(value, first(trace).trace),
            _ => true,
        } by {
        assert(fourth(trace) == script::chain(first(trace), finish));
    }
    stages::goes_through(fourth, first, finish, replies, from + 3, store, fits);
    insertion_succeeds(command, events, 0, replies, from + 3, store);
    let mid = first(Trace { replies, at: from + 3 }).trace.at;
    let between = stages::stage_store(first, replies, from + 3, store, mid);
    insertion_keeps_tables(command, events, 0, replies, from + 3, store, mid, between);
    journal_laws::written_tables_differ();
    let last: Workflow<u64, JournalError> = |trace: Trace| finish((), trace);
    stages::same_underway(
        last,
        |trace: Trace| journal::finish_append_run(trace, command, events.len() as int),
        replies,
        mid,
        between,
        fits,
    );
    assert(between.rows("games"@) == games);
    finish_succeeds(command, events.len() as int, replies, mid, between);
}

} // verus!
