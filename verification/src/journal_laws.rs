//! What the journal promises: commands are appended once and in turn, and what was appended is
//! what is read.
//!
//! Every law speaks of workflows whose replies a store of [`crate::model`] gives.
use crate::game::{GameEvent, GameId, GameState};
use crate::ids;
use crate::journal::{self, CommandView, EventRecord, JournalError};
use crate::model::{self, Record, Store, Workflow};
use crate::order;
use crate::script::{self, Ask, Outcome, Reply, Run, Trace};
use crate::store::{self, Datum, Direction, Op, Relation, Row};
use crate::transactions;
use vstd::prelude::*;

verus! {

/// Appending the events of a command in one transaction.
pub open spec fn appending(command: CommandView, events: Seq<&GameEvent>) -> Workflow<
    u64,
    JournalError,
> {
    transactions::transacting(transactions::appending(command, events))
}

/// Whether a row belongs to a game.
pub open spec fn of_game(record: Record, game_id: GameId) -> bool {
    model::datum_in(record, "game_id"@) == Datum::Text(ids::id_text_of(game_id))
}

/// Whether a game exists and stands at a revision.
pub open spec fn stands_at(store: Store, game_id: GameId, revision: int) -> bool {
    let games = store.rows("games"@);
    &&& exists|i: int| 0 <= i < games.len() && of_game(#[trigger] games[i], game_id)
    &&& forall|i: int|
        0 <= i < games.len() && of_game(#[trigger] games[i], game_id) ==> model::datum_in(
            games[i],
            "canonical_revision"@,
        ) == Datum::Integer(revision)
}

/// Whether a command or its retry key was used in its game.
pub open spec fn used(store: Store, command: CommandView) -> bool {
    let commands = store.rows("game_commands"@);
    exists|i: int|
        0 <= i < commands.len() && of_game(#[trigger] commands[i], command.game_id) && (
        model::datum_in(commands[i], "command_id"@) == Datum::Text(command.command_id)
            || model::datum_in(commands[i], "idempotency_key"@) == Datum::Text(
            command.idempotency_key,
        ))
}

/// The request for a game's revision.
pub open spec fn revision_op(game_id: GameId) -> Op {
    Op::select("games"@).where_text("game_id"@, ids::id_text_of(game_id))
}

/// The request for a command by its identity.
pub open spec fn command_op(command: CommandView) -> Op {
    Op::select("game_commands"@).where_text(
        "game_id"@,
        ids::id_text_of(command.game_id),
    ).where_text("command_id"@, command.command_id)
}

/// The request for a command by its retry key.
pub open spec fn key_op(command: CommandView) -> Op {
    Op::select("game_commands"@).where_text(
        "game_id"@,
        ids::id_text_of(command.game_id),
    ).where_text("idempotency_key"@, command.idempotency_key)
}

/// A row meets one filter by text exactly where it holds that text.
pub proof fn meets_text(record: Record, op: Op)
    requires
        op.filters.len() == 1,
        op.filters[0].1 == Relation::Equal,
        op.filters[0].2 is Text,
    ensures
        model::meets_all(record, op.filters) <==> model::datum_in(record, op.filters[0].0)
            == op.filters[0].2,
{
    if model::meets_all(record, op.filters) {
        assert(model::meets(record, op.filters[0]));
    }
    if model::datum_in(record, op.filters[0].0) == op.filters[0].2 {
        assert(model::meets(record, op.filters[0]));
    }
}

/// A row meets two filters by text exactly where it holds both texts.
pub proof fn meets_texts(record: Record, op: Op)
    requires
        op.filters.len() == 2,
        op.filters[0].1 == Relation::Equal,
        op.filters[0].2 is Text,
        op.filters[1].1 == Relation::Equal,
        op.filters[1].2 is Text,
    ensures
        model::meets_all(record, op.filters) <==> model::datum_in(record, op.filters[0].0)
            == op.filters[0].2 && model::datum_in(record, op.filters[1].0) == op.filters[1].2,
{
    if model::meets_all(record, op.filters) {
        assert(model::meets(record, op.filters[0]));
        assert(model::meets(record, op.filters[1]));
    }
    if model::datum_in(record, op.filters[0].0) == op.filters[0].2 && model::datum_in(
        record,
        op.filters[1].0,
    ) == op.filters[1].2 {
        assert forall|i: int| 0 <= i < op.filters.len() implies model::meets(
            record,
            #[trigger] op.filters[i],
        ) by {
            assert(i == 0 || i == 1);
        }
    }
}

/// What an append has read when it has asked for the game's revision.
proof fn revision_is_read(
    command: CommandView,
    events: Seq<&GameEvent>,
    replies: Seq<Reply>,
    store: Store,
    revision: int,
)
    requires
        model::served(appending(command, events), replies, store),
        stands_at(store, command.game_id, revision),
        replies.len() > 1,
    ensures
        model::asked(appending(command, events), replies, 0) == Some(Ask::Store(Op::begin())),
        model::asked(appending(command, events), replies, 1) == Some(
            Ask::Store(revision_op(command.game_id)),
        ),
        model::store_at(appending(command, events), replies, store, 2) == (Store {
            tables: store.tables,
            saved: Some(store.tables),
        }),
        replies[0] is Rows,
        replies[1] is Rows,
        store::first_integer_of(replies[1]->Rows_0@, "canonical_revision"@) matches Some(held)
            && held == revision,
{
    let workflow = appending(command, events);
    let op = revision_op(command.game_id);
    let games = store.rows("games"@);
    assert(model::asked(workflow, replies, 0) == Some(Ask::Store(Op::begin())));
    assert(model::served_at(workflow, replies, store, 0));
    assert(replies.take(1)[0] == replies[0]);
    assert(model::asked(workflow, replies, 1) == Some(Ask::Store(op)));
    assert(model::served_at(workflow, replies, store, 1));
    let begun = model::executed(store, Op::begin()).0;
    assert(model::store_at(workflow, replies, store, 1) == begun);
    assert(begun.rows("games"@) == games);
    model::found_rows(games, op.filters);
    let hits = model::found(games, op.filters);
    let i = choose|i: int| 0 <= i < games.len() && of_game(#[trigger] games[i], command.game_id);
    meets_text(games[i], op);
    assert(hits.len() > 0);
    meets_text(hits[0], op);
    let at = choose|at: int| 0 <= at < games.len() && games[at] == hits[0];
    assert(of_game(games[at], command.game_id));
    model::shown_values(replies[1]->Rows_0@[0], hits[0], "canonical_revision"@);
    assert(model::store_at(workflow, replies, store, 2) == begun);
}

/// A command made against another revision than the game's is refused as a conflict, with both
/// revisions, and changes nothing.
pub proof fn stale_commands_conflict(
    command: CommandView,
    events: Seq<&GameEvent>,
    replies: Seq<Reply>,
    store: Store,
    revision: u64,
)
    requires
        model::served(appending(command, events), replies, store),
        !(model::ending(appending(command, events), replies) is Wait),
        stands_at(store, command.game_id, revision as int),
        command.expected_revision != revision,
    ensures
        model::ending(appending(command, events), replies) == Outcome::<u64, JournalError>::Fail(
            JournalError::Conflict { expected: command.expected_revision, actual: revision },
        ),
        model::store_after(appending(command, events), replies, store).tables == store.tables,
{
    let workflow = appending(command, events);
    assert(replies.len() > 1) by {
        assert(replies =~= replies.take(replies.len() as int));
        if replies.len() > 0 {
            assert(model::asked(workflow, replies, 0) == Some(Ask::Store(Op::begin())));
            assert(model::served_at(workflow, replies, store, 0));
        }
    }
    revision_is_read(command, events, replies, store, revision as int);
    assert(replies.len() > 2) by {
        if replies.len() == 2 {
            assert(replies =~= replies.take(2));
        }
    }
    assert(replies.take(2)[0] == replies[0]);
    assert(replies.take(2)[1] == replies[1]);
    assert(model::served_at(workflow, replies, store, 2));
    assert(model::asked(workflow, replies, 2) == Some(Ask::Store(Op::rollback())));
    transactions::refused_appends_change_nothing(
        command,
        events,
        replies,
        store,
        JournalError::Conflict { expected: command.expected_revision, actual: revision },
    );
}

/// A command that was used before, or whose retry key was, is refused as a duplicate where the
/// game stands at the revision that it was made against, and changes nothing.
pub proof fn used_commands_are_duplicates(
    command: CommandView,
    events: Seq<&GameEvent>,
    replies: Seq<Reply>,
    store: Store,
)
    requires
        model::served(appending(command, events), replies, store),
        !(model::ending(appending(command, events), replies) is Wait),
        stands_at(store, command.game_id, command.expected_revision as int),
        used(store, command),
    ensures
        model::ending(appending(command, events), replies) == Outcome::<u64, JournalError>::Fail(
            JournalError::DuplicateCommand,
        ),
        model::store_after(appending(command, events), replies, store).tables == store.tables,
{
    let workflow = appending(command, events);
    assert(replies.len() > 1) by {
        assert(replies =~= replies.take(replies.len() as int));
        if replies.len() > 0 {
            assert(model::asked(workflow, replies, 0) == Some(Ask::Store(Op::begin())));
            assert(model::served_at(workflow, replies, store, 0));
        }
    }
    revision_is_read(command, events, replies, store, command.expected_revision as int);
    assert(replies.len() > 2) by {
        if replies.len() == 2 {
            assert(replies =~= replies.take(2));
        }
    }
    assert(replies.take(2)[0] == replies[0]);
    assert(replies.take(2)[1] == replies[1]);
    let begun = model::store_at(workflow, replies, store, 2);
    let commands = store.rows("game_commands"@);
    assert(begun.rows("game_commands"@) == commands);
    let by_id = command_op(command);
    let by_key = key_op(command);
    assert(model::served_at(workflow, replies, store, 2));
    assert(model::asked(workflow, replies, 2) == Some(Ask::Store(by_id)));
    model::found_rows(commands, by_id.filters);
    model::found_rows(commands, by_key.filters);
    let i = choose|i: int|
        0 <= i < commands.len() && of_game(#[trigger] commands[i], command.game_id) && (
        model::datum_in(commands[i], "command_id"@) == Datum::Text(command.command_id)
            || model::datum_in(commands[i], "idempotency_key"@) == Datum::Text(
            command.idempotency_key,
        ));
    meets_texts(commands[i], by_id);
    meets_texts(commands[i], by_key);
    if model::found(commands, by_id.filters).len() == 0 {
        assert(replies.len() > 3) by {
            if replies.len() == 3 {
                assert(replies =~= replies.take(3));
            }
        }
        assert(replies.take(3)[0] == replies[0]);
        assert(replies.take(3)[1] == replies[1]);
        assert(replies.take(3)[2] == replies[2]);
        assert(model::store_at(workflow, replies, store, 3) == begun);
        assert(model::served_at(workflow, replies, store, 3));
        assert(model::asked(workflow, replies, 3) == Some(Ask::Store(by_key)));
        assert(replies.len() > 4) by {
            if replies.len() == 4 {
                assert(replies =~= replies.take(4));
            }
        }
        assert(replies.take(4)[0] == replies[0]);
        assert(replies.take(4)[1] == replies[1]);
        assert(replies.take(4)[2] == replies[2]);
        assert(replies.take(4)[3] == replies[3]);
        assert(model::served_at(workflow, replies, store, 4));
        assert(model::asked(workflow, replies, 4) == Some(Ask::Store(Op::rollback())));
    } else {
        assert(replies.len() > 3) by {
            if replies.len() == 3 {
                assert(replies =~= replies.take(3));
            }
        }
        assert(replies.take(3)[0] == replies[0]);
        assert(replies.take(3)[1] == replies[1]);
        assert(replies.take(3)[2] == replies[2]);
        assert(model::served_at(workflow, replies, store, 3));
        assert(model::asked(workflow, replies, 3) == Some(Ask::Store(Op::rollback())));
    }
    transactions::refused_appends_change_nothing(
        command,
        events,
        replies,
        store,
        JournalError::DuplicateCommand,
    );
}

/// What a command has inserted into the journal for the event at `index`.
pub open spec fn journal_record(
    command: CommandView,
    payload: Seq<char>,
    index: int,
) -> Record {
    model::assigned(
        Map::empty(),
        journal::insert_event_op(
            command,
            (command.expected_revision + index + 1) as u64,
            payload,
        ).values,
    )
}

/// What an insertion asks for at the event `wanted`.
proof fn insertion_asks(
    replies: Seq<Reply>,
    at: int,
    command: CommandView,
    events: Seq<&GameEvent>,
    index: int,
    wanted: int,
)
    requires
        0 <= at,
        0 <= index <= wanted < events.len(),
        journal::insert_events_run(Trace { replies, at }, command, events, index).outcome is Done,
    ensures
        ({
            let place = at + 2 * (wanted - index);
            let payload = script::reply_text(replies[place]);
            &&& place + 1 < replies.len()
            &&& command.expected_revision + wanted + 1 <= i64::MAX
            &&& payload is Some
            &&& replies[place + 1] is Rows
            &&& journal::insert_events_run(
                Trace { replies: replies.take(place), at },
                command,
                events,
                index,
            ).outcome == Outcome::<(), JournalError>::Wait(Ask::EncodeEvent(*events[wanted]))
            &&& journal::insert_events_run(
                Trace { replies: replies.take(place + 1), at },
                command,
                events,
                index,
            ).outcome == Outcome::<(), JournalError>::Wait(
                Ask::Store(
                    journal::insert_event_op(
                        command,
                        (command.expected_revision + wanted + 1) as u64,
                        payload->0,
                    ),
                ),
            )
        }),
    decreases wanted - index,
{
    let place = at + 2 * (wanted - index);
    if index < wanted {
        insertion_asks(replies, at + 2, command, events, index + 1, wanted);
        assert(replies.take(place)[at] == replies[at]);
        assert(replies.take(place)[at + 1] == replies[at + 1]);
        assert(replies.take(place + 1)[at] == replies[at]);
        assert(replies.take(place + 1)[at + 1] == replies[at + 1]);
    } else {
        assert(replies.take(place + 1)[at] == replies[at]);
    }
}

/// Where an insertion ends.
proof fn insertion_ends(
    replies: Seq<Reply>,
    at: int,
    command: CommandView,
    events: Seq<&GameEvent>,
    index: int,
)
    requires
        0 <= at,
        0 <= index <= events.len(),
        journal::insert_events_run(Trace { replies, at }, command, events, index).outcome is Done,
    ensures
        journal::insert_events_run(Trace { replies, at }, command, events, index).trace == (Trace {
            replies,
            at: at + 2 * (events.len() - index),
        }),
    decreases events.len() - index,
{
    if index < events.len() {
        insertion_ends(replies, at + 2, command, events, index + 1);
    }
}

/// The payload that stands for the event at `index` in the replies to an append.
pub open spec fn payload_at(replies: Seq<Reply>, index: int) -> Seq<char> {
    script::reply_text(replies[4 + 2 * index])->0
}

/// The rows that an append adds to the journal.
pub open spec fn journal_records(
    command: CommandView,
    replies: Seq<Reply>,
    count: int,
) -> Seq<Record> {
    Seq::new(
        count as nat,
        |index: int| journal_record(command, payload_at(replies, index), index),
    )
}

/// The first replies of an append that ends in a revision.
proof fn append_begins(
    command: CommandView,
    events: Seq<&GameEvent>,
    replies: Seq<Reply>,
    store: Store,
)
    requires
        model::served(appending(command, events), replies, store),
        model::ending(appending(command, events), replies) is Done,
    ensures
        ({
            let workflow = appending(command, events);
            let end: int = 4 + 2 * (events.len() as int);
            &&& replies.len() > end + 2
            &&& replies[0] is Rows
            &&& replies[1] is Rows
            &&& replies[2] is Rows
            &&& replies[3] is Rows
            &&& journal::insert_events_run(
                Trace { replies, at: 4 },
                command,
                events,
                0,
            ).outcome is Done
            &&& replies[1]->Rows_0@.len() > 0
            &&& store::first_integer_of(replies[1]->Rows_0@, "canonical_revision"@) matches Some(
                held,
            ) && held == command.expected_revision
            &&& replies[2]->Rows_0@.len() == 0
            &&& replies[3]->Rows_0@.len() == 0
            &&& command.expected_revision + events.len() <= i64::MAX
            &&& replies[end] is Rows
            &&& replies[end + 1] is Rows
            &&& replies[end + 1]->Rows_0@.len() == 1
            &&& model::ending(workflow, replies) == Outcome::<u64, JournalError>::Done(
                (command.expected_revision + events.len()) as u64,
            )
        }),
{
    let workflow = appending(command, events);
    let inserted = journal::insert_events_run(Trace { replies, at: 4 }, command, events, 0);
    if inserted.outcome is Done {
        insertion_ends(replies, 4, command, events, 0);
    }
}

/// What an append asks for at each place.
proof fn append_asks(
    command: CommandView,
    events: Seq<&GameEvent>,
    replies: Seq<Reply>,
    store: Store,
)
    requires
        model::served(appending(command, events), replies, store),
        model::ending(appending(command, events), replies) is Done,
    ensures
        ({
            let workflow = appending(command, events);
            let end: int = 4 + 2 * (events.len() as int);
            let resulting = (command.expected_revision + events.len()) as u64;
            &&& model::asked(workflow, replies, 0) == Some(Ask::Store(Op::begin()))
            &&& model::asked(workflow, replies, 1) == Some(
                Ask::Store(revision_op(command.game_id)),
            )
            &&& model::asked(workflow, replies, 2) == Some(Ask::Store(command_op(command)))
            &&& model::asked(workflow, replies, 3) == Some(Ask::Store(key_op(command)))
            &&& forall|i: int|
                #![trigger events[i]]
                0 <= i < events.len() ==> model::asked(workflow, replies, 4 + 2 * i) == Some(
                    Ask::EncodeEvent(*events[i]),
                ) && model::asked(workflow, replies, 4 + 2 * i + 1) == Some(
                    Ask::Store(
                        journal::insert_event_op(
                            command,
                            (command.expected_revision + i + 1) as u64,
                            payload_at(replies, i),
                        ),
                    ),
                )
            &&& model::asked(workflow, replies, end) == Some(
                Ask::Store(journal::insert_command_op(command, resulting)),
            )
            &&& model::asked(workflow, replies, end + 1) == Some(
                Ask::Store(journal::advance_revision_op(command, resulting)),
            )
            &&& model::asked(workflow, replies, end + 2) == Some(Ask::Store(Op::commit()))
            &&& replies.len() == end + 3
        }),
{
    let workflow = appending(command, events);
    let end: int = 4 + 2 * (events.len() as int);
    append_begins(command, events, replies, store);
    let inserted = journal::insert_events_run(Trace { replies, at: 4 }, command, events, 0);
    insertion_ends(replies, 4, command, events, 0);
    assert(replies.take(1)[0] == replies[0]);
    assert(replies.take(2)[0] == replies[0]);
    assert(replies.take(2)[1] == replies[1]);
    assert(replies.take(3)[0] == replies[0]);
    assert(replies.take(3)[1] == replies[1]);
    assert(replies.take(3)[2] == replies[2]);
    assert forall|i: int| #![trigger events[i]] 0 <= i < events.len() implies model::asked(
        workflow,
        replies,
        4 + 2 * i,
    ) == Some(Ask::EncodeEvent(*events[i])) && model::asked(workflow, replies, 4 + 2 * i + 1)
        == Some(
        Ask::Store(
            journal::insert_event_op(
                command,
                (command.expected_revision + i + 1) as u64,
                payload_at(replies, i),
            ),
        ),
    ) by {
        insertion_asks(replies, 4, command, events, 0, i);
        let place = 4 + 2 * i;
        assert(replies.take(place)[0] == replies[0]);
        assert(replies.take(place)[1] == replies[1]);
        assert(replies.take(place)[2] == replies[2]);
        assert(replies.take(place)[3] == replies[3]);
        assert(replies.take(place + 1)[0] == replies[0]);
        assert(replies.take(place + 1)[1] == replies[1]);
        assert(replies.take(place + 1)[2] == replies[2]);
        assert(replies.take(place + 1)[3] == replies[3]);
    }
    append_ends(command, events, replies, store);
}

proof fn append_ends(
    command: CommandView,
    events: Seq<&GameEvent>,
    replies: Seq<Reply>,
    store: Store,
)
    requires
        model::served(appending(command, events), replies, store),
        model::ending(appending(command, events), replies) is Done,
    ensures
        ({
            let workflow = appending(command, events);
            let end: int = 4 + 2 * (events.len() as int);
            let resulting = (command.expected_revision + events.len()) as u64;
            &&& model::asked(workflow, replies, end) == Some(
                Ask::Store(journal::insert_command_op(command, resulting)),
            )
            &&& model::asked(workflow, replies, end + 1) == Some(
                Ask::Store(journal::advance_revision_op(command, resulting)),
            )
            &&& model::asked(workflow, replies, end + 2) == Some(Ask::Store(Op::commit()))
            &&& replies.len() == end + 3
        }),
{
    let workflow = appending(command, events);
    let end: int = 4 + 2 * (events.len() as int);
    append_begins(command, events, replies, store);
    insertion_ends(replies, 4, command, events, 0);
    append_ends_at(command, events, replies, end);
    append_ends_at(command, events, replies, end + 1);
    append_ends_at(command, events, replies, end + 2);
    if replies.len() > end + 3 {
        append_ends_at(command, events, replies, end + 3);
        assert(model::served_at(workflow, replies, store, end + 2));
        assert(model::served_at(workflow, replies, store, end + 3));
    }
}

/// The first replies of an append, cut behind the insertions.
proof fn append_ends_at(
    command: CommandView,
    events: Seq<&GameEvent>,
    replies: Seq<Reply>,
    place: int,
)
    requires
        4 + 2 * events.len() <= place <= replies.len(),
        replies[0] is Rows,
        replies[1] is Rows,
        replies[2] is Rows,
        replies[3] is Rows,
        journal::insert_events_run(Trace { replies, at: 4 }, command, events, 0).outcome is Done,
        store::first_integer_of(replies[1]->Rows_0@, "canonical_revision"@) matches Some(held)
            && held == command.expected_revision,
        replies[2]->Rows_0@.len() == 0,
        replies[3]->Rows_0@.len() == 0,
    ensures
        appending(command, events)(Trace { replies: replies.take(place), at: 0 })
            == script::settled(
            journal::finish_append_run(
                Trace { replies: replies.take(place), at: 4 + 2 * (events.len() as int) },
                command,
                events.len() as int,
            ),
        ),
        forall|i: int|
            4 + 2 * events.len() <= i < place ==> #[trigger] replies.take(place)[i] == replies[i],
{
    crate::steady::inserting_is_steady(replies, 4, place, command, events, 0);
    insertion_ends(replies, 4, command, events, 0);
    let cut = replies.take(place);
    assert(cut[0] == replies[0]);
    assert(cut[1] == replies[1]);
    assert(cut[2] == replies[2]);
    assert(cut[3] == replies[3]);
}

/// The tables that an append writes have different names.
pub proof fn written_tables_differ()
    ensures
        "games"@ != "game_journal"@,
        "games"@ != "game_commands"@,
        "game_journal"@ != "game_commands"@,
{
    reveal_strlit("games");
    reveal_strlit("game_journal");
    reveal_strlit("game_commands");
    assert("games"@.len() == 5);
    assert("game_journal"@.len() == 12);
    assert("game_commands"@.len() == 13);
}

/// The store when an append has inserted its first `count` events.
proof fn events_are_stored(
    command: CommandView,
    events: Seq<&GameEvent>,
    replies: Seq<Reply>,
    store: Store,
    count: int,
)
    requires
        model::served(appending(command, events), replies, store),
        model::ending(appending(command, events), replies) is Done,
        0 <= count <= events.len(),
    ensures
        ({
            let after = model::store_at(appending(command, events), replies, store, 4 + 2 * count);
            &&& after.rows("game_journal"@) == store.rows("game_journal"@) + journal_records(
                command,
                replies,
                count,
            )
            &&& forall|table: Seq<char>|
                table != "game_journal"@ ==> #[trigger] after.rows(table) == store.rows(table)
        }),
    decreases count,
{
    let workflow = appending(command, events);
    append_asks(command, events, replies, store);
    if count == 0 {
        let begun = model::executed(store, Op::begin()).0;
        assert(model::store_at(workflow, replies, store, 0) == store);
        assert(model::store_at(workflow, replies, store, 1) == begun);
        assert(model::store_at(workflow, replies, store, 2) == begun);
        assert(model::store_at(workflow, replies, store, 3) == begun);
        assert(model::store_at(workflow, replies, store, 4) == begun);
        assert(journal_records(command, replies, 0) =~= Seq::empty());
        assert(store.rows("game_journal"@) + Seq::<Record>::empty() =~= store.rows(
            "game_journal"@,
        ));
        assert forall|table: Seq<char>| #[trigger] begun.rows(table) == store.rows(table) by {}
    } else {
        let last = count - 1;
        events_are_stored(command, events, replies, store, last);
        let event = events[last];
        let place = 4 + 2 * last;
        let before = model::store_at(workflow, replies, store, place);
        assert(model::store_at(workflow, replies, store, place + 1) == before);
        let op = journal::insert_event_op(
            command,
            (command.expected_revision + last + 1) as u64,
            payload_at(replies, last),
        );
        let after = model::executed(before, op).0;
        assert(model::store_at(workflow, replies, store, place + 2) == after);
        assert(journal_records(command, replies, count) =~= journal_records(
            command,
            replies,
            last,
        ).push(journal_record(command, payload_at(replies, last), last)));
        assert(after.rows("game_journal"@) =~= store.rows("game_journal"@) + journal_records(
            command,
            replies,
            count,
        ));
        assert forall|table: Seq<char>| table != "game_journal"@ implies #[trigger] after.rows(
            table,
        ) == store.rows(table) by {
            assert(after.rows(table) == before.rows(table));
        }
    }
}

/// What an append that ends in a revision leaves behind: one row for each event, in their order,
/// one for the command, and the game's new revision.
pub proof fn appended_commands_are_recorded(
    command: CommandView,
    events: Seq<&GameEvent>,
    replies: Seq<Reply>,
    store: Store,
)
    requires
        model::served(appending(command, events), replies, store),
        model::ending(appending(command, events), replies) is Done,
    ensures
        ({
            let after = model::store_after(appending(command, events), replies, store);
            let resulting = (command.expected_revision + events.len()) as u64;
            let advance = journal::advance_revision_op(command, resulting);
            &&& command.expected_revision + events.len() <= i64::MAX
            &&& model::ending(appending(command, events), replies) == Outcome::<
                u64,
                JournalError,
            >::Done(resulting)
            &&& after.rows("game_journal"@) == store.rows("game_journal"@) + journal_records(
                command,
                replies,
                events.len() as int,
            )
            &&& after.rows("game_commands"@) == store.rows("game_commands"@).push(
                model::assigned(
                    Map::empty(),
                    journal::insert_command_op(command, resulting).values,
                ),
            )
            &&& after.rows("games"@) == model::updated(
                store.rows("games"@),
                advance.filters,
                advance.values,
            )
            &&& forall|table: Seq<char>|
                table != "games"@ && table != "game_journal"@ && table != "game_commands"@
                    ==> #[trigger] after.rows(table) == store.rows(table)
        }),
{
    let workflow = appending(command, events);
    let count = events.len() as int;
    let end = 4 + 2 * count;
    let resulting = (command.expected_revision + count) as u64;
    append_begins(command, events, replies, store);
    append_asks(command, events, replies, store);
    events_are_stored(command, events, replies, store, count);
    written_tables_differ();
    let stored = model::store_at(workflow, replies, store, end);
    let recorded = model::executed(stored, journal::insert_command_op(command, resulting)).0;
    assert(model::store_at(workflow, replies, store, end + 1) == recorded);
    let advanced = model::executed(
        recorded,
        journal::advance_revision_op(command, resulting),
    ).0;
    assert(model::store_at(workflow, replies, store, end + 2) == advanced);
    let after = model::executed(advanced, Op::commit()).0;
    assert(model::store_at(workflow, replies, store, end + 3) == after);
    assert(stored.rows("games"@) == store.rows("games"@));
    assert(stored.rows("game_commands"@) == store.rows("game_commands"@));
    assert(recorded.rows("games"@) == stored.rows("games"@));
    assert(after.rows("game_journal"@) == stored.rows("game_journal"@));
    assert(after.rows("game_commands"@) == recorded.rows("game_commands"@));
    assert(after.rows("games"@) == advanced.rows("games"@));
    assert forall|table: Seq<char>|
        table != "games"@ && table != "game_journal"@ && table
            != "game_commands"@ implies #[trigger] after.rows(table) == store.rows(table) by {
        assert(after.rows(table) == stored.rows(table));
    }
}

/// What a row that records a command holds.
proof fn command_record_holds(command: CommandView, resulting: u64)
    ensures
        ({
            let record = model::assigned(
                Map::empty(),
                journal::insert_command_op(command, resulting).values,
            );
            &&& of_game(record, command.game_id)
            &&& model::datum_in(record, "command_id"@) == Datum::Text(command.command_id)
            &&& model::datum_in(record, "idempotency_key"@) == Datum::Text(
                command.idempotency_key,
            )
        }),
{
    let values = journal::insert_command_op(command, resulting).values;
    reveal_strlit("game_command_id");
    reveal_strlit("game_id");
    reveal_strlit("command_id");
    reveal_strlit("idempotency_key");
    reveal_strlit("expected_revision");
    reveal_strlit("resulting_revision");
    assert("game_command_id"@.len() == 15 && "game_command_id"@[0] == 'g');
    assert("game_id"@.len() == 7);
    assert("command_id"@.len() == 10);
    assert("idempotency_key"@.len() == 15 && "idempotency_key"@[0] == 'i');
    assert("expected_revision"@.len() == 17);
    assert("resulting_revision"@.len() == 18);
    model::assigned_sets(Map::empty(), values, 1);
    model::assigned_sets(Map::empty(), values, 2);
    model::assigned_sets(Map::empty(), values, 3);
}

/// A successful append was made against the game's revision, advances the game by one for each
/// event, and uses up the command and its retry key.
pub proof fn appends_advance_the_game(
    command: CommandView,
    events: Seq<&GameEvent>,
    replies: Seq<Reply>,
    store: Store,
    revision: int,
)
    requires
        stands_at(store, command.game_id, revision),
        model::served(appending(command, events), replies, store),
        model::ending(appending(command, events), replies) is Done,
    ensures
        revision == command.expected_revision,
        stands_at(
            model::store_after(appending(command, events), replies, store),
            command.game_id,
            revision + events.len(),
        ),
        used(model::store_after(appending(command, events), replies, store), command),
{
    let after = model::store_after(appending(command, events), replies, store);
    let resulting = (command.expected_revision + events.len()) as u64;
    let advance = journal::advance_revision_op(command, resulting);
    append_begins(command, events, replies, store);
    revision_is_read(command, events, replies, store, revision);
    appended_commands_are_recorded(command, events, replies, store);
    command_record_holds(command, resulting);
    let commands = after.rows("game_commands"@);
    assert(of_game(commands[commands.len() - 1], command.game_id));
    let games = store.rows("games"@);
    let moved = after.rows("games"@);
    reveal_strlit("game_id");
    reveal_strlit("canonical_revision");
    assert("game_id"@.len() == 7);
    assert("canonical_revision"@.len() == 18);
    assert(advance.values.len() == 1 && advance.values[0].0 == "canonical_revision"@);
    assert forall|i: int| 0 <= i < moved.len() && of_game(
        #[trigger] moved[i],
        command.game_id,
    ) implies model::datum_in(moved[i], "canonical_revision"@) == Datum::Integer(
        revision + events.len(),
    ) by {
        model::assigned_keeps(games[i], advance.values, "game_id"@);
        assert(of_game(games[i], command.game_id));
        assert forall|k: int| 0 <= k < advance.filters.len() implies model::meets(
            games[i],
            #[trigger] advance.filters[k],
        ) by {
            assert(k == 0 || k == 1);
        }
        model::assigned_sets(games[i], advance.values, 0);
    }
    let i = choose|i: int| 0 <= i < games.len() && of_game(#[trigger] games[i], command.game_id);
    model::assigned_keeps(games[i], advance.values, "game_id"@);
    assert(of_game(moved[i], command.game_id));
}

/// A command is appended at most once: when it was appended, a command of the same game with the
/// same identity or the same retry key is refused, whatever revision it was made against.
pub proof fn commands_are_appended_once(
    command: CommandView,
    events: Seq<&GameEvent>,
    replies: Seq<Reply>,
    store: Store,
    revision: int,
    again: CommandView,
    later_events: Seq<&GameEvent>,
    later_replies: Seq<Reply>,
)
    requires
        stands_at(store, command.game_id, revision),
        model::served(appending(command, events), replies, store),
        model::ending(appending(command, events), replies) is Done,
        again.game_id == command.game_id,
        again.command_id == command.command_id || again.idempotency_key
            == command.idempotency_key,
        model::served(
            appending(again, later_events),
            later_replies,
            model::store_after(appending(command, events), replies, store),
        ),
        !(model::ending(appending(again, later_events), later_replies) is Wait),
    ensures
        ({
            let resulting = (command.expected_revision + events.len()) as u64;
            model::ending(appending(again, later_events), later_replies) == Outcome::<
                u64,
                JournalError,
            >::Fail(
                if again.expected_revision == resulting {
                    JournalError::DuplicateCommand
                } else {
                    JournalError::Conflict { expected: again.expected_revision, actual: resulting }
                },
            )
        }),
        model::store_after(
            appending(again, later_events),
            later_replies,
            model::store_after(appending(command, events), replies, store),
        ).tables == model::store_after(appending(command, events), replies, store).tables,
{
    let after = model::store_after(appending(command, events), replies, store);
    let resulting = (command.expected_revision + events.len()) as u64;
    appends_advance_the_game(command, events, replies, store, revision);
    appended_commands_are_recorded(command, events, replies, store);
    command_record_holds(command, resulting);
    if again.expected_revision == resulting {
        let commands = after.rows("game_commands"@);
        assert(of_game(commands[commands.len() - 1], again.game_id));
        assert(used(after, again));
        used_commands_are_duplicates(again, later_events, later_replies, after);
    } else {
        stale_commands_conflict(again, later_events, later_replies, after, resulting);
    }
}

/// Whether a game's journal holds no event beyond a revision.
pub open spec fn journal_ends_by(store: Store, game_id: GameId, revision: int) -> bool {
    let rows = store.rows("game_journal"@);
    forall|i: int|
        0 <= i < rows.len() && of_game(#[trigger] rows[i], game_id) ==> (model::datum_in(
            rows[i],
            "revision"@,
        ) matches Datum::Integer(held) && held <= revision)
}

/// What a row that holds an event holds.
pub proof fn journal_record_holds(command: CommandView, payload: Seq<char>, index: int)
    requires
        0 <= index,
        command.expected_revision + index + 1 <= i64::MAX,
    ensures
        ({
            let record = journal_record(command, payload, index);
            &&& of_game(record, command.game_id)
            &&& model::datum_in(record, "revision"@) == Datum::Integer(
                command.expected_revision + index + 1,
            )
            &&& model::datum_in(record, "command_id"@) == Datum::Text(command.command_id)
            &&& model::datum_in(record, "idempotency_key"@) == Datum::Text(
                command.idempotency_key,
            )
            &&& model::datum_in(record, "payload_version"@) == Datum::Integer(3)
            &&& model::datum_in(record, "payload"@) == Datum::Text(payload)
        }),
{
    let values = journal::insert_event_op(
        command,
        (command.expected_revision + index + 1) as u64,
        payload,
    ).values;
    reveal_strlit("event_id");
    reveal_strlit("game_id");
    reveal_strlit("revision");
    reveal_strlit("command_id");
    reveal_strlit("idempotency_key");
    reveal_strlit("payload_version");
    reveal_strlit("payload");
    assert("event_id"@.len() == 8 && "event_id"@[0] == 'e');
    assert("game_id"@.len() == 7 && "game_id"@[0] == 'g');
    assert("revision"@.len() == 8 && "revision"@[0] == 'r');
    assert("command_id"@.len() == 10);
    assert("idempotency_key"@.len() == 15 && "idempotency_key"@[0] == 'i');
    assert("payload_version"@.len() == 15 && "payload_version"@[0] == 'p');
    assert("payload"@.len() == 7 && "payload"@[0] == 'p');
    model::assigned_sets(Map::empty(), values, 1);
    model::assigned_sets(Map::empty(), values, 2);
    model::assigned_sets(Map::empty(), values, 3);
    model::assigned_sets(Map::empty(), values, 4);
    model::assigned_sets(Map::empty(), values, 5);
    model::assigned_sets(Map::empty(), values, 6);
}

/// No append puts an event beyond the revision that it advances the game to.
pub proof fn appends_keep_the_journal_within(
    command: CommandView,
    events: Seq<&GameEvent>,
    replies: Seq<Reply>,
    store: Store,
)
    requires
        journal_ends_by(store, command.game_id, command.expected_revision as int),
        model::served(appending(command, events), replies, store),
        model::ending(appending(command, events), replies) is Done,
    ensures
        journal_ends_by(
            model::store_after(appending(command, events), replies, store),
            command.game_id,
            command.expected_revision + events.len(),
        ),
{
    let after = model::store_after(appending(command, events), replies, store);
    appended_commands_are_recorded(command, events, replies, store);
    let old_rows = store.rows("game_journal"@);
    let rows = after.rows("game_journal"@);
    assert forall|i: int| 0 <= i < rows.len() && of_game(
        #[trigger] rows[i],
        command.game_id,
    ) implies (model::datum_in(rows[i], "revision"@) matches Datum::Integer(held) && held
        <= command.expected_revision + events.len()) by {
        if i < old_rows.len() {
            assert(rows[i] == old_rows[i]);
        } else {
            let index = i - old_rows.len();
            journal_record_holds(command, payload_at(replies, index), index);
        }
    }
}

/// Loading a game's journal after a revision.
pub open spec fn loading(game_id: GameId, after_revision: u64) -> Workflow<
    Seq<EventRecord>,
    JournalError,
> {
    |trace: Trace| journal::load_events_run(trace, game_id, after_revision)
}

/// Whether a payload that was written for an event is read as that event.
pub open spec fn reads_what_was_written<S, T, E, F>(
    writer: Workflow<S, E>,
    written: Seq<Reply>,
    reader: Workflow<T, F>,
    read: Seq<Reply>,
) -> bool {
    forall|i: int, j: int|
        0 <= i < written.len() && 0 <= j < read.len() ==> match (
            #[trigger] model::asked(writer, written, i),
            #[trigger] model::asked(reader, read, j),
        ) {
            (Some(Ask::EncodeEvent(event)), Some(Ask::DecodeEvent(version, payload))) => version
                == 3 && script::reply_text(written[i]) == Some(payload) ==> script::reply_event(
                read[j],
            ) == Some(event),
            _ => true,
        }
}

/// The journal records that an append stands for.
pub open spec fn records_of(command: CommandView, events: Seq<&GameEvent>) -> Seq<EventRecord> {
    Seq::new(
        events.len(),
        |index: int|
            EventRecord {
                game_id: command.game_id,
                revision: (command.expected_revision + index + 1) as u64,
                command_id: command.command_id,
                idempotency_key: command.idempotency_key,
                payload_version: 3,
                event: *events[index],
            },
    )
}

/// The request for a game's journal after a revision.
pub open spec fn journal_op(game_id: GameId, after_revision: u64) -> Op {
    Op::select("game_journal"@)
        .where_text("game_id"@, ids::id_text_of(game_id))
        .where_gt("revision"@, after_revision as int)
        .sort("revision"@, Direction::Ascending)
}

/// What is loaded behind an append's revision are the rows that it added.
proof fn added_rows_are_loaded(
    command: CommandView,
    events: Seq<&GameEvent>,
    replies: Seq<Reply>,
    store: Store,
)
    requires
        journal_ends_by(store, command.game_id, command.expected_revision as int),
        model::served(appending(command, events), replies, store),
        model::ending(appending(command, events), replies) is Done,
    ensures
        model::executed(
            model::store_after(appending(command, events), replies, store),
            journal_op(command.game_id, command.expected_revision),
        ).1 == journal_records(command, replies, events.len() as int),
{
    let after = model::store_after(appending(command, events), replies, store);
    let op = journal_op(command.game_id, command.expected_revision);
    let count = events.len() as int;
    let old_rows = store.rows("game_journal"@);
    let added = journal_records(command, replies, count);
    appended_commands_are_recorded(command, events, replies, store);
    model::found_in_both(old_rows, added, op.filters);
    model::found_rows(old_rows, op.filters);
    if model::found(old_rows, op.filters).len() > 0 {
        let i = choose|i: int|
            0 <= i < old_rows.len() && model::meets_all(#[trigger] old_rows[i], op.filters);
        assert(model::meets(old_rows[i], op.filters[0]));
        assert(model::meets(old_rows[i], op.filters[1]));
        assert(of_game(old_rows[i], command.game_id));
    }
    assert forall|i: int| 0 <= i < added.len() implies model::meets_all(
        #[trigger] added[i],
        op.filters,
    ) by {
        journal_record_holds(command, payload_at(replies, i), i);
        assert forall|k: int| 0 <= k < op.filters.len() implies model::meets(
            added[i],
            #[trigger] op.filters[k],
        ) by {
            assert(k == 0 || k == 1);
        }
    }
    model::all_found(added, op.filters);
    assert(model::found(old_rows, op.filters) + added =~= added);
    let before = |left: Record, right: Record|
        model::sorts_before(left, right, "revision"@, Direction::Ascending);
    assert forall|i: int, j: int| 0 <= i < j < added.len() implies !before(
        #[trigger] added[j],
        #[trigger] added[i],
    ) by {
        journal_record_holds(command, payload_at(replies, i), i);
        journal_record_holds(command, payload_at(replies, j), j);
    }
    order::arranged_in_place(added, before);
}

/// One journal row on the replies up to its event, and behind it.
proof fn record_is_read(
    replies: Seq<Reply>,
    at: int,
    command: CommandView,
    payload: Seq<char>,
    index: int,
    row: Row,
)
    requires
        0 <= at,
        0 <= index,
        command.expected_revision + index + 1 <= i64::MAX,
        model::shows(row, journal_record(command, payload, index)),
    ensures
        at >= replies.len() ==> journal::journal_row_run(
            Trace { replies, at },
            command.game_id,
            row,
        ).outcome == Outcome::<EventRecord, JournalError>::Wait(Ask::DecodeEvent(3, payload)),
        at < replies.len() && script::reply_event(replies[at]) is Some
            ==> journal::journal_row_run(Trace { replies, at }, command.game_id, row) == (Run {
            outcome: Outcome::<EventRecord, JournalError>::Done(
                EventRecord {
                    game_id: command.game_id,
                    revision: (command.expected_revision + index + 1) as u64,
                    command_id: command.command_id,
                    idempotency_key: command.idempotency_key,
                    payload_version: 3,
                    event: script::reply_event(replies[at])->0,
                },
            ),
            trace: Trace { replies, at: at + 1 },
        }),
{
    let record = journal_record(command, payload, index);
    journal_record_holds(command, payload, index);
    model::shown_values(row, record, "revision"@);
    model::shown_values(row, record, "payload_version"@);
    model::shown_values(row, record, "payload"@);
    model::shown_values(row, record, "command_id"@);
    model::shown_values(row, record, "idempotency_key"@);
}

/// Reading the rows of an append from `index` on asks for the event at `index` next and goes on
/// with it.
proof fn records_are_read(
    command: CommandView,
    events: Seq<&GameEvent>,
    written: Seq<Reply>,
    replies: Seq<Reply>,
    rows: Seq<Row>,
    index: int,
    read: Seq<EventRecord>,
)
    requires
        0 <= index <= events.len(),
        command.expected_revision + events.len() <= i64::MAX,
        model::all_shown(rows, journal_records(command, written, events.len() as int)),
        replies.len() >= 1 + index,
        forall|i: int|
            index <= i < replies.len() - 1 && i < events.len() ==> script::reply_event(
                #[trigger] replies[i + 1],
            ) == Some(*events[i]),
        read == records_of(command, events).take(index),
    ensures
        replies.len() <= events.len() ==> journal::journal_rows_run(
            Trace { replies, at: 1 + index },
            command.game_id,
            rows,
            index,
            read,
        ).outcome == Outcome::<Seq<EventRecord>, JournalError>::Wait(
            Ask::DecodeEvent(3, payload_at(written, replies.len() - 1)),
        ),
        replies.len() > events.len() ==> journal::journal_rows_run(
            Trace { replies, at: 1 + index },
            command.game_id,
            rows,
            index,
            read,
        ).outcome == Outcome::<Seq<EventRecord>, JournalError>::Done(
            records_of(command, events),
        ),
    decreases events.len() - index,
{
    let all = records_of(command, events);
    if index < events.len() {
        record_is_read(
            replies,
            1 + index,
            command,
            payload_at(written, index),
            index,
            rows[index],
        );
        if 1 + index < replies.len() {
            assert(script::reply_event(replies[index + 1]) == Some(*events[index]));
            assert(all.take(index).push(all[index]) =~= all.take(index + 1));
            records_are_read(
                command,
                events,
                written,
                replies,
                rows,
                index + 1,
                read.push(all[index]),
            );
        }
    } else {
        assert(all.take(index) =~= all);
    }
}

/// At each place a load of what was just appended asks for the next event.
proof fn load_asks(
    command: CommandView,
    events: Seq<&GameEvent>,
    replies: Seq<Reply>,
    store: Store,
    later_replies: Seq<Reply>,
    place: int,
)
    requires
        journal_ends_by(store, command.game_id, command.expected_revision as int),
        model::served(appending(command, events), replies, store),
        model::ending(appending(command, events), replies) is Done,
        model::served(
            loading(command.game_id, command.expected_revision),
            later_replies,
            model::store_after(appending(command, events), replies, store),
        ),
        reads_what_was_written(
            appending(command, events),
            replies,
            loading(command.game_id, command.expected_revision),
            later_replies,
        ),
        1 <= place <= later_replies.len(),
    ensures
        place <= events.len() ==> model::asked(
            loading(command.game_id, command.expected_revision),
            later_replies,
            place,
        ) == Some(Ask::DecodeEvent(3, payload_at(replies, place - 1))),
        place > events.len() ==> loading(command.game_id, command.expected_revision)(
            Trace { replies: later_replies.take(place), at: 0 },
        ).outcome == Outcome::<Seq<EventRecord>, JournalError>::Done(
            records_of(command, events),
        ),
        forall|i: int|
            0 <= i < place - 1 && i < events.len() ==> script::reply_event(
                #[trigger] later_replies[i + 1],
            ) == Some(*events[i]),
    decreases place,
{
    let writer = appending(command, events);
    let reader = loading(command.game_id, command.expected_revision);
    let after = model::store_after(writer, replies, store);
    let op = journal_op(command.game_id, command.expected_revision);
    append_begins(command, events, replies, store);
    append_asks(command, events, replies, store);
    added_rows_are_loaded(command, events, replies, store);
    assert(model::asked(reader, later_replies, 0) == Some(Ask::Store(op)));
    assert(model::served_at(reader, later_replies, after, 0));
    let rows = later_replies[0]->Rows_0@;
    let cut = later_replies.take(place);
    assert(cut[0] == later_replies[0]);
    if place > 1 {
        load_asks(command, events, replies, store, later_replies, place - 1);
        let last = place - 2;
        if last < events.len() {
            let event = events[last];
            insertion_asks(replies, 4, command, events, 0, last);
            assert(model::asked(writer, replies, 4 + 2 * last) == Some(
                Ask::EncodeEvent(*events[last]),
            ));
            assert(model::asked(reader, later_replies, place - 1) == Some(
                Ask::DecodeEvent(3, payload_at(replies, last)),
            ));
            assert(script::reply_event(later_replies[last + 1]) == Some(*events[last]));
        }
    }
    assert forall|i: int| 0 <= i < cut.len() - 1 && i < events.len() implies script::reply_event(
        #[trigger] cut[i + 1],
    ) == Some(*events[i]) by {
        assert(script::reply_event(later_replies[i + 1]) == Some(*events[i]));
    }
    assert(records_of(command, events).take(0) =~= Seq::empty());
    records_are_read(command, events, replies, cut, rows, 0, Seq::empty());
}

/// What a command appended is what is loaded behind the revision that it was made against: its
/// events, in their order, with their revisions, under the command's identity and retry key.
pub proof fn appended_events_are_read_back(
    command: CommandView,
    events: Seq<&GameEvent>,
    replies: Seq<Reply>,
    store: Store,
    later_replies: Seq<Reply>,
)
    requires
        journal_ends_by(store, command.game_id, command.expected_revision as int),
        model::served(appending(command, events), replies, store),
        model::ending(appending(command, events), replies) is Done,
        model::served(
            loading(command.game_id, command.expected_revision),
            later_replies,
            model::store_after(appending(command, events), replies, store),
        ),
        !(model::ending(loading(command.game_id, command.expected_revision), later_replies) is Wait),
        reads_what_was_written(
            appending(command, events),
            replies,
            loading(command.game_id, command.expected_revision),
            later_replies,
        ),
    ensures
        model::ending(loading(command.game_id, command.expected_revision), later_replies)
            == Outcome::<Seq<EventRecord>, JournalError>::Done(records_of(command, events)),
{
    let reader = loading(command.game_id, command.expected_revision);
    let count = later_replies.len() as int;
    assert(later_replies.take(count) =~= later_replies);
    append_begins(command, events, replies, store);
    load_asks(command, events, replies, store, later_replies, count);
}

/// What a rules engine makes of a state by applying one event.
pub type Engine = spec_fn(Option<GameState>, GameEvent) -> GameState;

/// What a rules engine makes of a state by applying events in turn.
pub open spec fn replayed(
    engine: Engine,
    state: Option<GameState>,
    events: Seq<GameEvent>,
) -> Option<GameState>
    decreases events.len(),
{
    if events.len() == 0 {
        state
    } else {
        Some(engine(replayed(engine, state, events.drop_last()), events.last()))
    }
}

/// Whether the replies from `at` on are the engine's when it applies `events` in turn.
pub open spec fn applied_by(
    engine: Engine,
    state: Option<GameState>,
    events: Seq<GameEvent>,
    replies: Seq<Reply>,
    at: int,
) -> bool {
    &&& 0 <= at
    &&& at + events.len() <= replies.len()
    &&& forall|i: int|
        0 <= i < events.len() ==> script::reply_state(#[trigger] replies[at + i]) == Some(
            engine(replayed(engine, state, events.take(i)), events[i]),
        )
}

/// Replaying in two parts is replaying.
pub proof fn replays_compose(
    engine: Engine,
    state: Option<GameState>,
    earlier: Seq<GameEvent>,
    later: Seq<GameEvent>,
)
    ensures
        replayed(engine, replayed(engine, state, earlier), later) == replayed(
            engine,
            state,
            earlier + later,
        ),
    decreases later.len(),
{
    if later.len() == 0 {
        assert(earlier + later =~= earlier);
    } else {
        replays_compose(engine, state, earlier, later.drop_last());
        assert((earlier + later).drop_last() =~= earlier + later.drop_last());
    }
}

proof fn events_are_applied(
    engine: Engine,
    state: Option<GameState>,
    events: Seq<GameEvent>,
    replies: Seq<Reply>,
    at: int,
    index: int,
)
    requires
        applied_by(engine, state, events, replies, at),
        0 <= index <= events.len(),
    ensures
        journal::apply_events_run(
            Trace { replies, at: at + index },
            replayed(engine, state, events.take(index)),
            events,
            index,
        ) == (Run {
            outcome: Outcome::<Option<GameState>, JournalError>::Done(
                replayed(engine, state, events),
            ),
            trace: Trace { replies, at: at + events.len() },
        }),
    decreases events.len() - index,
{
    if index < events.len() {
        assert(events.take(index + 1).drop_last() =~= events.take(index));
        assert(script::reply_state(replies[at + index]) is Some);
        events_are_applied(engine, state, events, replies, at, index + 1);
    } else {
        assert(events.take(index) =~= events);
    }
}

/// A game recovered from a snapshot and the journal behind it is the game that the whole journal
/// gives: where the snapshot is what the earlier events lead to, or there is none and there are
/// no earlier events, recovery leads to what all the events lead to.
pub proof fn recovery_is_replay(
    engine: Engine,
    game_id: GameId,
    replies: Seq<Reply>,
    earlier: Seq<GameEvent>,
    snapshot: Option<GameState>,
    loading_at: Trace,
    tail: Seq<EventRecord>,
    applying_at: Trace,
)
    requires
        journal::load_latest_snapshot_run(Trace { replies, at: 0 }, game_id) == (Run {
            outcome: Outcome::<Option<GameState>, JournalError>::Done(snapshot),
            trace: loading_at,
        }),
        snapshot == replayed(engine, None, earlier),
        journal::load_events_run(
            loading_at,
            game_id,
            match snapshot {
                Some(state) => state.revision,
                None => 0,
            },
        ) == (Run {
            outcome: Outcome::<Seq<EventRecord>, JournalError>::Done(tail),
            trace: applying_at,
        }),
        earlier.len() + tail.len() > 0,
        applying_at.replies == replies,
        applied_by(
            engine,
            snapshot,
            journal::record_events(tail),
            replies,
            applying_at.at,
        ),
    ensures
        journal::recover_game_run(Trace { replies, at: 0 }, game_id).outcome == Outcome::<
            GameState,
            JournalError,
        >::Done(replayed(engine, None, earlier + journal::record_events(tail))->0),
{
    let later = journal::record_events(tail);
    replays_compose(engine, None, earlier, later);
    assert(later.take(0) =~= Seq::empty());
    events_are_applied(engine, snapshot, later, replies, applying_at.at, 0);
}

/// A journal with an event of an unknown payload version is never read, wherever that event
/// stands.
pub proof fn unknown_versions_are_refused(
    trace: Trace,
    game_id: GameId,
    rows: Seq<Row>,
    index: int,
    read: Seq<EventRecord>,
    unknown: int,
)
    requires
        0 <= index <= unknown < rows.len(),
        match store::unsigned_of(rows[unknown].integer_at("payload_version"@)) {
            Some(version) => !journal::known_version(version),
            None => true,
        },
    ensures
        !(journal::journal_rows_run(trace, game_id, rows, index, read).outcome is Done),
    decreases rows.len() - index,
{
    if index < unknown {
        let row = journal::journal_row_run(trace, game_id, rows[index]);
        if let Outcome::Done(event) = row.outcome {
            unknown_versions_are_refused(
                row.trace,
                game_id,
                rows,
                index + 1,
                read.push(event),
                unknown,
            );
        }
    }
}

} // verus!
