//! What snapshots promise: the one that was stored last is the one that is loaded.
use crate::game::{GameId, GameState};
use crate::ids;
use crate::journal::{self, JournalError};
use crate::journal_laws;
use crate::model::{self, Record, Store, Workflow};
use crate::order;
use crate::script::{self, Ask, Outcome, Reply, Trace};
use crate::store::{Datum, Direction, Op};
use vstd::prelude::*;

verus! {

/// Storing a snapshot.
pub open spec fn keeping(game_id: GameId, state: GameState, created_at_ms: i64) -> Workflow<
    (),
    JournalError,
> {
    |trace: Trace| journal::store_snapshot_run(trace, game_id, state, created_at_ms)
}

/// Loading the latest snapshot.
pub open spec fn recalling(game_id: GameId) -> Workflow<Option<GameState>, JournalError> {
    |trace: Trace| journal::load_latest_snapshot_run(trace, game_id)
}

/// Whether every snapshot of a game is of a revision up to this one.
pub open spec fn snapshots_end_by(store: Store, game_id: GameId, revision: int) -> bool {
    forall|i: int|
        0 <= i < store.rows("game_snapshots"@).len() && journal_laws::of_game(
            #[trigger] store.rows("game_snapshots"@)[i],
            game_id,
        ) ==> (model::datum_in(store.rows("game_snapshots"@)[i], "revision"@) matches Datum::Integer(
            held,
        ) && held <= revision)
}

/// The text in which a state was written.
pub open spec fn written_state(replies: Seq<Reply>) -> Seq<char> {
    script::reply_text(replies[1])->0
}

/// The row of a snapshot.
pub open spec fn snapshot_record(
    game_id: GameId,
    revision: u64,
    payload: Seq<char>,
    created_at_ms: i64,
) -> Record {
    model::assigned(
        Map::empty(),
        journal::insert_snapshot_op(game_id, revision, payload, created_at_ms).values,
    )
}

/// A stored snapshot stands behind the snapshots of other revisions and other games.
pub proof fn snapshot_is_kept(
    game_id: GameId,
    state: GameState,
    created_at_ms: i64,
    replies: Seq<Reply>,
    store: Store,
)
    requires
        model::served(keeping(game_id, state, created_at_ms), replies, store),
        model::ending(keeping(game_id, state, created_at_ms), replies) is Done,
    ensures
        state.revision <= i64::MAX,
        model::store_after(keeping(game_id, state, created_at_ms), replies, store).rows(
            "game_snapshots"@,
        ) == model::left(
            store.rows("game_snapshots"@),
            journal::delete_snapshot_op(game_id, state.revision).filters,
        ).push(
            snapshot_record(game_id, state.revision, written_state(replies), created_at_ms),
        ),
{
    let workflow = keeping(game_id, state, created_at_ms);
    let delete = journal::delete_snapshot_op(game_id, state.revision);
    let insert = journal::insert_snapshot_op(
        game_id,
        state.revision,
        written_state(replies),
        created_at_ms,
    );
    assert(replies.take(replies.len() as int) =~= replies);
    assert(replies.len() > 2);
    assert(model::asked(workflow, replies, 0) == Some(Ask::Store(delete)));
    assert(model::served_at(workflow, replies, store, 0));
    let cleared = model::executed(store, delete).0;
    assert(model::store_at(workflow, replies, store, 1) == cleared);
    assert(replies.take(1)[0] == replies[0]);
    assert(model::asked(workflow, replies, 1) == Some(Ask::EncodeState(state)));
    assert(model::store_at(workflow, replies, store, 2) == cleared);
    assert(replies.take(2)[0] == replies[0]);
    assert(replies.take(2)[1] == replies[1]);
    assert(model::asked(workflow, replies, 2) == Some(Ask::Store(insert)));
    assert(model::served_at(workflow, replies, store, 2));
    let kept = model::executed(cleared, insert).0;
    assert(model::store_at(workflow, replies, store, 3) == kept);
    if replies.len() > 3 {
        assert(replies.take(3)[0] == replies[0]);
        assert(replies.take(3)[1] == replies[1]);
        assert(replies.take(3)[2] == replies[2]);
        assert(model::served_at(workflow, replies, store, 3));
    }
}

/// What the row of a snapshot holds.
pub proof fn record_holds(game_id: GameId, revision: u64, payload: Seq<char>, created_at_ms: i64)
    ensures
        ({
            let record = snapshot_record(game_id, revision, payload, created_at_ms);
            &&& journal_laws::of_game(record, game_id)
            &&& model::datum_in(record, "revision"@) == Datum::Integer(revision as int)
            &&& model::datum_in(record, "payload_version"@) == Datum::Integer(3)
            &&& model::datum_in(record, "payload"@) == Datum::Text(payload)
        }),
{
    let values = journal::insert_snapshot_op(game_id, revision, payload, created_at_ms).values;
    reveal_strlit("snapshot_id");
    reveal_strlit("game_id");
    reveal_strlit("revision");
    reveal_strlit("payload_version");
    reveal_strlit("payload");
    reveal_strlit("created_at_ms");
    assert("snapshot_id"@.len() == 11);
    assert("game_id"@.len() == 7 && "game_id"@[0] == 'g');
    assert("revision"@.len() == 8);
    assert("payload_version"@.len() == 15);
    assert("payload"@.len() == 7 && "payload"@[0] == 'p');
    assert("created_at_ms"@.len() == 13);
    assert(values.len() == 6);
    model::assigned_sets(Map::empty(), values, 1);
    model::assigned_sets(Map::empty(), values, 2);
    model::assigned_sets(Map::empty(), values, 3);
    model::assigned_sets(Map::empty(), values, 4);
}

/// After a snapshot was stored, no other snapshot of its game is of its revision.
pub proof fn snapshots_replace_their_revision(
    game_id: GameId,
    state: GameState,
    created_at_ms: i64,
    replies: Seq<Reply>,
    store: Store,
)
    requires
        model::served(keeping(game_id, state, created_at_ms), replies, store),
        model::ending(keeping(game_id, state, created_at_ms), replies) is Done,
    ensures
        ({
            let rows = model::store_after(
                keeping(game_id, state, created_at_ms),
                replies,
                store,
            ).rows("game_snapshots"@);
            &&& rows.len() > 0
            &&& rows.last() == snapshot_record(
                game_id,
                state.revision,
                written_state(replies),
                created_at_ms,
            )
            &&& forall|i: int|
                0 <= i < rows.len() - 1 ==> !(journal_laws::of_game(#[trigger] rows[i], game_id)
                    && model::datum_in(rows[i], "revision"@) == Datum::Integer(
                    state.revision as int,
                ))
        }),
{
    snapshot_is_kept(game_id, state, created_at_ms, replies, store);
    let delete = journal::delete_snapshot_op(game_id, state.revision);
    let kept = model::left(store.rows("game_snapshots"@), delete.filters);
    model::left_rows(store.rows("game_snapshots"@), delete.filters);
    assert forall|i: int| 0 <= i < kept.len() implies !(journal_laws::of_game(
        #[trigger] kept[i],
        game_id,
    ) && model::datum_in(kept[i], "revision"@) == Datum::Integer(state.revision as int)) by {
        if journal_laws::of_game(kept[i], game_id) && model::datum_in(kept[i], "revision"@)
            == Datum::Integer(state.revision as int) {
            assert forall|k: int| 0 <= k < delete.filters.len() implies model::meets(
                kept[i],
                #[trigger] delete.filters[k],
            ) by {
                assert(k == 0 || k == 1);
            }
            assert(model::meets_all(kept[i], delete.filters));
        }
    }
}

/// The latest snapshot that was stored is the one that is loaded, in the text in which it was
/// written; where that text is read as the state that was written, the state comes back.
pub proof fn snapshots_are_read_back(
    game_id: GameId,
    state: GameState,
    created_at_ms: i64,
    replies: Seq<Reply>,
    store: Store,
    later_replies: Seq<Reply>,
)
    requires
        snapshots_end_by(store, game_id, state.revision as int),
        model::served(keeping(game_id, state, created_at_ms), replies, store),
        model::ending(keeping(game_id, state, created_at_ms), replies) is Done,
        model::served(
            recalling(game_id),
            later_replies,
            model::store_after(keeping(game_id, state, created_at_ms), replies, store),
        ),
        later_replies.len() > 0,
    ensures
        model::asked(recalling(game_id), later_replies, 1) == Some(
            Ask::DecodeState(3, written_state(replies)),
        ),
        later_replies.len() > 1 && script::reply_state(later_replies[1]) == Some(state)
            ==> model::ending(recalling(game_id), later_replies) == Outcome::<
            Option<GameState>,
            JournalError,
        >::Done(Some(state)),
{
    let workflow = recalling(game_id);
    let before = model::store_after(keeping(game_id, state, created_at_ms), replies, store);
    let payload = written_state(replies);
    let record = snapshot_record(game_id, state.revision, payload, created_at_ms);
    let delete = journal::delete_snapshot_op(game_id, state.revision);
    let select = Op::select("game_snapshots"@).where_text(
        "game_id"@,
        ids::id_text_of(game_id),
    ).sort("revision"@, Direction::Descending);
    let table = store.rows("game_snapshots"@);
    let kept = model::left(table, delete.filters);
    let rows = before.rows("game_snapshots"@);
    snapshot_is_kept(game_id, state, created_at_ms, replies, store);
    snapshots_replace_their_revision(game_id, state, created_at_ms, replies, store);
    record_holds(game_id, state.revision, payload, created_at_ms);
    model::left_rows(table, delete.filters);
    let precedes = |left: Record, right: Record|
        model::sorts_before(left, right, "revision"@, Direction::Descending);
    let others = model::found(kept, select.filters);
    assert(rows.drop_last() =~= kept);
    assert(model::meets_all(record, select.filters)) by {
        assert(model::meets(record, select.filters[0]));
    }
    assert(model::found(rows, select.filters) == others.push(record));
    model::found_rows(kept, select.filters);
    let sorted = order::arranged(others, precedes);
    assert forall|i: int| 0 <= i < others.len() implies #[trigger] precedes(record, others[i]) by {
        assert(model::meets(others[i], select.filters[0]));
        let at = choose|at: int| 0 <= at < kept.len() && kept[at] == others[i];
        let place = choose|place: int| 0 <= place < table.len() && table[place] == kept[at];
        assert(journal_laws::of_game(table[place], game_id));
        assert(journal_laws::of_game(rows[at], game_id));
    }
    if sorted.len() > 0 {
        order::arranged_contains(others, precedes, sorted[0]);
        let at = choose|at: int| 0 <= at < others.len() && others[at] == sorted[0];
        assert(precedes(record, others[at]));
    }
    assert(others.push(record).drop_last() =~= others);
    assert(order::arranged(others.push(record), precedes)[0] == record);
    assert(model::sorted(others.push(record), select.order)[0] == record);
    assert(model::asked(workflow, later_replies, 0) == Some(Ask::Store(select)));
    assert(model::served_at(workflow, later_replies, before, 0));
    let shown = later_replies[0]->Rows_0@;
    order::arranged_keeps_elements(others.push(record), precedes);
    assert(shown.len() > 0);
    assert(model::shows(shown[0], record));
    model::shown_values(shown[0], record, "payload_version"@);
    model::shown_values(shown[0], record, "payload"@);
    assert(later_replies.take(1)[0] == later_replies[0]);
}

} // verus!
