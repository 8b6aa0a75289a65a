//! What lobbies hold: the settings that were asked for last, the members who were let in, and the
//! state that was reached.
use crate::crypto;
use crate::game::{self, Span, Timestamp};
use crate::ids;
use crate::lobbies::{self, FirstView, GameCreationPolicy, LobbyError, LobbyView, SettingsView};
use crate::lobby_laws;
use crate::model::{self, Record, Store, Workflow};
use crate::rollback_laws;
use crate::script::{self, Ask, Outcome, Reply, Run, Trace};
use crate::stages;
use crate::store::{self, Datum, Op, Relation, Row, Value, Verb};
use vstd::prelude::*;

verus! {

/// A policy admits settings for two players or more, a board and a tile set, each within its
/// limits.
pub proof fn policies_limit_settings(policy: GameCreationPolicy, settings: SettingsView)
    ensures
        policy.admits(settings) <==> settings.max_players >= 2 && settings.max_players
            <= policy.max_players && settings.board_size >= 1 && settings.board_size
            <= policy.max_board_size && settings.tile_set_count >= 1 && settings.tile_set_count
            <= policy.max_tile_sets,
        policy.admits(settings) ==> policy.admits_games(),
        policy.admits_games() <==> policy.max_players >= 2 && policy.max_board_size >= 1
            && policy.max_tile_sets >= 1,
{
}

/// Whether a lobby's row holds settings, all four of them.
pub open spec fn holds_settings(record: Record, settings: SettingsView) -> bool {
    &&& model::datum_in(record, "max_players"@) == Datum::Integer(settings.max_players as int)
    &&& model::datum_in(record, "board_size"@) == Datum::Integer(settings.board_size as int)
    &&& model::datum_in(record, "tile_set_count"@) == Datum::Integer(
        settings.tile_set_count as int,
    )
    &&& match settings.first_player {
        FirstView::Random => model::datum_in(record, "first_player_policy"@) == Datum::Text(
            "RANDOM"@,
        ) && model::datum_in(record, "chosen_first_user_id"@) == Datum::Null,
        FirstView::Creator => model::datum_in(record, "first_player_policy"@) == Datum::Text(
            "CREATOR"@,
        ) && model::datum_in(record, "chosen_first_user_id"@) == Datum::Null,
        FirstView::Chosen(user) => model::datum_in(record, "first_player_policy"@) == Datum::Text(
            "CHOSEN"@,
        ) && model::datum_in(record, "chosen_first_user_id"@) == Datum::Text(user),
    }
}

/// Settings that a row holds are the settings that are read from it.
pub proof fn held_settings_are_read(row: Row, record: Record, settings: SettingsView)
    requires
        model::shows(row, record),
        holds_settings(record, settings),
        lobbies::settings_of(row) is Some,
    ensures
        lobbies::settings_of(row) == Some(settings),
{
    model::shown_values(row, record, "max_players"@);
    model::shown_values(row, record, "board_size"@);
    model::shown_values(row, record, "tile_set_count"@);
    model::shown_values(row, record, "first_player_policy"@);
    assert(match row.column("chosen_first_user_id"@) {
        Some(Value::Unsigned(_)) => false,
        Some(value) => value@ == model::datum_in(record, "chosen_first_user_id"@),
        None => model::datum_in(record, "chosen_first_user_id"@) == Datum::Null,
    });
    reveal_strlit("RANDOM");
    reveal_strlit("CREATOR");
    reveal_strlit("CHOSEN");
    assert("RANDOM"@.len() == 6 && "RANDOM"@[0] == 'R');
    assert("CREATOR"@.len() == 7);
    assert("CHOSEN"@.len() == 6 && "CHOSEN"@[0] == 'C');
}

/// The filter on a lobby that is open at a revision.
pub open spec fn open_at(lobby: Seq<char>, revision: int) -> Seq<(Seq<char>, Relation, Datum)> {
    seq![
        ("lobby_id"@, Relation::Equal, Datum::Text(lobby)),
        ("status"@, Relation::Equal, Datum::Text("OPEN"@)),
        ("revision"@, Relation::Equal, Datum::Integer(revision)),
    ]
}

/// The filter on a lobby that is open.
pub open spec fn while_open(lobby: Seq<char>) -> Seq<(Seq<char>, Relation, Datum)> {
    seq![
        ("lobby_id"@, Relation::Equal, Datum::Text(lobby)),
        ("status"@, Relation::Equal, Datum::Text("OPEN"@)),
    ]
}

/// Whether one open lobby's row was changed, and no other row of a lobby.
pub open spec fn lobby_changed(
    before: Seq<Record>,
    after: Seq<Record>,
    lobby: Seq<char>,
    at: int,
) -> bool {
    &&& after.len() == before.len()
    &&& 0 <= at < before.len()
    &&& model::meets_all(before[at], while_open(lobby))
    &&& model::datum_in(before[at], "revision"@) is Integer
    &&& model::datum_in(after[at], "revision"@) == Datum::Integer(
        model::datum_in(before[at], "revision"@)->Integer_0 + 1,
    )
    &&& model::datum_in(after[at], "lobby_id"@) == Datum::Text(lobby)
    &&& model::datum_in(after[at], "creator_user_id"@) == model::datum_in(
        before[at],
        "creator_user_id"@,
    )
    &&& forall|i: int| 0 <= i < before.len() && i != at ==> #[trigger] after[i] == before[i]
}

/// Whether a lobby's settings stayed as they were.
pub open spec fn settings_kept(before: Record, after: Record) -> bool {
    &&& model::datum_in(after, "max_players"@) == model::datum_in(before, "max_players"@)
    &&& model::datum_in(after, "board_size"@) == model::datum_in(before, "board_size"@)
    &&& model::datum_in(after, "tile_set_count"@) == model::datum_in(before, "tile_set_count"@)
    &&& model::datum_in(after, "first_player_policy"@) == model::datum_in(
        before,
        "first_player_policy"@,
    )
    &&& model::datum_in(after, "chosen_first_user_id"@) == model::datum_in(
        before,
        "chosen_first_user_id"@,
    )
}

/// Where one row is found, no two rows meet the filters.
pub proof fn one_is_hit(
    rows: Seq<Record>,
    filters: Seq<(Seq<char>, Relation, Datum)>,
    at: int,
    i: int,
)
    requires
        model::found(rows, filters).len() == 1,
        0 <= at < rows.len(),
        model::meets_all(rows[at], filters),
        0 <= i < rows.len(),
        model::meets_all(rows[i], filters),
    ensures
        i == at,
    decreases rows.len(),
{
    let less = rows.drop_last();
    let end = rows.len() - 1;
    if i < end && at < end {
        model::found_rows(less, filters);
        assert(model::meets_all(less[at], filters));
        one_is_hit(less, filters, at, i);
    } else if i != at {
        model::found_rows(less, filters);
        if i < end {
            assert(model::meets_all(less[i], filters));
        } else {
            assert(model::meets_all(less[at], filters));
        }
    }
}

/// The last step of a change to a lobby.
spec fn advancing<T>(
    changes: Op,
    lobby: Seq<char>,
    row: Row,
    now: Timestamp,
    result: T,
) -> Workflow<T, LobbyError> {
    |trace: Trace| lobbies::advance_run(trace, changes, lobby, row, now, result)
}

/// What the last step of a change leaves behind.
proof fn advance_leaves<T>(
    changes: Op,
    lobby: Seq<char>,
    row: Row,
    now: Timestamp,
    result: T,
    replies: Seq<Reply>,
    from: int,
    store: Store,
)
    requires
        changes.verb == Verb::Update,
        changes.table == "game_lobbies"@,
        changes.filters.len() == 0,
        changes.order is None,
        changes.limit is None,
        stages::underway(
            advancing(changes, lobby, row, now, result),
            replies,
            from,
            store,
            stages::anything(),
        ),
        advancing(changes, lobby, row, now, result)(Trace { replies, at: from }).outcome is Done,
    ensures
        advancing(changes, lobby, row, now, result)(Trace { replies, at: from }).outcome
            == Outcome::<T, LobbyError>::Done(result),
        row.integer_at("revision"@) is Some,
        game::millis_at(now) is Some,
        ({
            let revision = row.integer_at("revision"@)->0 as int;
            let after = stages::stage_store(
                advancing(changes, lobby, row, now, result),
                replies,
                from,
                store,
                replies.len() as int,
            );
            &&& model::found(store.rows("game_lobbies"@), open_at(lobby, revision)).len() == 1
            &&& after.rows("game_lobbies"@) == model::updated(
                store.rows("game_lobbies"@),
                open_at(lobby, revision),
                changes.values.push(("revision"@, Datum::Integer(revision + 1))).push(
                    ("updated_at_ms"@, Datum::Integer(game::millis_at(now)->0 as int)),
                ),
            )
            &&& forall|table: Seq<char>|
                table != "game_lobbies"@ ==> #[trigger] after.rows(table) == store.rows(table)
        }),
{
    let fits = stages::anything();
    let stage = advancing(changes, lobby, row, now, result);
    let start = Trace { replies, at: from };
    assert(stage(start).outcome is Done);
    let revision = row.integer_at("revision"@)->0;
    let now_ms = game::millis_at(now)->0;
    let op = lobbies::advance_op(changes, lobby, revision, now_ms);
    let finish = |rows: Seq<Row>, trace: Trace| script::done::<T, LobbyError>(trace, result);
    let rest = |updated: Seq<Row>, trace: Trace|
        if updated.len() != 1 {
            script::fail(trace, LobbyError::Conflict)
        } else {
            script::query(trace, Op::commit(), finish)
        };
    assert forall|trace: Trace| #[trigger] stage(trace) == script::query(trace, op, rest) by {
        let performed = |rows: Seq<Row>, trace: Trace| script::done::<T, LobbyError>(trace, result);
        assert(performed =~= finish);
    }
    let updated = stages::asks_store(stage, op, rest, replies, from, store, fits);
    let next = model::executed(store, op).0;
    let second: Workflow<T, LobbyError> = |trace: Trace| rest(updated, trace);
    assert(second(Trace { replies, at: from + 1 }).outcome is Done);
    let done = stages::asks_store(second, Op::commit(), finish, replies, from + 1, next, fits);
    let third: Workflow<T, LobbyError> = |trace: Trace| finish(done, trace);
    let last = model::executed(next, Op::commit()).0;
    stages::nothing_more(third, replies, from + 2, last, replies.len() as int);
    assert(op.filters =~= open_at(lobby, revision as int));
    assert(op.values =~= changes.values.push(("revision"@, Datum::Integer(revision + 1))).push(
        ("updated_at_ms"@, Datum::Integer(now_ms as int)),
    ));
}

/// An open lobby that was changed at its revision was changed alone.
proof fn one_lobby_is_changed(
    rows: Seq<Record>,
    lobby: Seq<char>,
    revision: int,
    values: Seq<(Seq<char>, Datum)>,
    now_ms: int,
) -> (at: int)
    requires
        model::found(rows, open_at(lobby, revision)).len() == 1,
        forall|i: int|
            0 <= i < values.len() ==> (#[trigger] values[i]).0 != "lobby_id"@ && values[i].0
                != "creator_user_id"@,
    ensures
        ({
            let all = values.push(("revision"@, Datum::Integer(revision + 1))).push(
                ("updated_at_ms"@, Datum::Integer(now_ms)),
            );
            let after = model::updated(rows, open_at(lobby, revision), all);
            &&& lobby_changed(rows, after, lobby, at)
            &&& after[at] == model::assigned(rows[at], all)
            &&& model::datum_in(rows[at], "revision"@) == Datum::Integer(revision)
        }),
{
    let filters = open_at(lobby, revision);
    let all = values.push(("revision"@, Datum::Integer(revision + 1))).push(
        ("updated_at_ms"@, Datum::Integer(now_ms)),
    );
    let after = model::updated(rows, filters, all);
    columns_differ();
    model::found_rows(rows, filters);
    let at = choose|i: int| 0 <= i < rows.len() && model::meets_all(#[trigger] rows[i], filters);
    assert(model::meets(rows[at], filters[0]));
    assert(model::meets(rows[at], filters[1]));
    assert(model::meets(rows[at], filters[2]));
    assert(model::meets_all(rows[at], while_open(lobby))) by {
        assert forall|k: int| 0 <= k < while_open(lobby).len() implies model::meets(
            rows[at],
            #[trigger] while_open(lobby)[k],
        ) by {
            assert(while_open(lobby)[k] == filters[k]);
        }
    }
    assert forall|i: int| 0 <= i < rows.len() && i != at implies #[trigger] after[i]
        == rows[i] by {
        if model::meets_all(rows[i], filters) {
            one_is_hit(rows, filters, at, i);
        }
    }
    assert(all[values.len() as int].0 == "revision"@);
    model::assigned_sets(rows[at], all, values.len() as int);
    assert forall|i: int| 0 <= i < all.len() implies (#[trigger] all[i]).0 != "lobby_id"@
        && all[i].0 != "creator_user_id"@ by {
        if i < values.len() {
            assert(all[i] == values[i]);
        }
    }
    model::assigned_keeps(rows[at], all, "lobby_id"@);
    model::assigned_keeps(rows[at], all, "creator_user_id"@);
    at
}

proof fn columns_differ()
    ensures
        ({
            let names = column_names();
            forall|i: int, j: int|
                0 <= i < j < names.len() ==> #[trigger] names[i] != #[trigger] names[j]
        }),
        column_names().len() == 14,
        column_names()[0] == "lobby_id"@,
        column_names()[1] == "creator_user_id"@,
        column_names()[2] == "status"@,
        column_names()[3] == "revision"@,
        column_names()[4] == "max_players"@,
        column_names()[5] == "board_size"@,
        column_names()[6] == "tile_set_count"@,
        column_names()[7] == "first_player_policy"@,
        column_names()[8] == "chosen_first_user_id"@,
        column_names()[9] == "invitation_token_hash"@,
        column_names()[10] == "invitation_expires_at_ms"@,
        column_names()[11] == "started_game_id"@,
        column_names()[12] == "created_at_ms"@,
        column_names()[13] == "updated_at_ms"@,
{
    reveal_strlit("lobby_id");
    reveal_strlit("creator_user_id");
    reveal_strlit("status");
    reveal_strlit("revision");
    reveal_strlit("max_players");
    reveal_strlit("board_size");
    reveal_strlit("tile_set_count");
    reveal_strlit("first_player_policy");
    reveal_strlit("chosen_first_user_id");
    reveal_strlit("invitation_token_hash");
    reveal_strlit("invitation_expires_at_ms");
    reveal_strlit("started_game_id");
    reveal_strlit("created_at_ms");
    reveal_strlit("updated_at_ms");
    assert("lobby_id"@.len() == 8 && "lobby_id"@[0] == 'l');
    assert("creator_user_id"@.len() == 15 && "creator_user_id"@[0] == 'c');
    assert("status"@.len() == 6);
    assert("revision"@.len() == 8 && "revision"@[0] == 'r');
    assert("max_players"@.len() == 11);
    assert("board_size"@.len() == 10);
    assert("tile_set_count"@.len() == 14);
    assert("first_player_policy"@.len() == 19);
    assert("chosen_first_user_id"@.len() == 20);
    assert("invitation_token_hash"@.len() == 21);
    assert("invitation_expires_at_ms"@.len() == 24);
    assert("started_game_id"@.len() == 15 && "started_game_id"@[0] == 's');
    assert("created_at_ms"@.len() == 13 && "created_at_ms"@[0] == 'c');
    assert("updated_at_ms"@.len() == 13 && "updated_at_ms"@[0] == 'u');
}

/// The columns of a lobby.
spec fn column_names() -> Seq<Seq<char>> {
    seq![
        "lobby_id"@,
        "creator_user_id"@,
        "status"@,
        "revision"@,
        "max_players"@,
        "board_size"@,
        "tile_set_count"@,
        "first_player_policy"@,
        "chosen_first_user_id"@,
        "invitation_token_hash"@,
        "invitation_expires_at_ms"@,
        "started_game_id"@,
        "created_at_ms"@,
        "updated_at_ms"@,
    ]
}

/// A change to an open lobby finds the lobby in a transaction, and goes on with its row.
proof fn lobby_is_found<T>(
    stage: Workflow<T, LobbyError>,
    lobby: Seq<char>,
    change: spec_fn(Row, Trace) -> Run<T, LobbyError>,
    replies: Seq<Reply>,
    store: Store,
) -> (row: Row)
    requires
        forall|trace: Trace| #[trigger]
            stage(trace) == lobbies::open_lobby_run(trace, lobby, change),
        model::served(stage, replies, store),
        model::ending(stage, replies) is Done,
    ensures
        replies.len() >= 2,
        ({
            let hits = model::found(store.rows("game_lobbies"@), while_open(lobby));
            hits.len() > 0 && model::shows(row, hits[0])
        }),
        stages::underway(
            |trace: Trace| change(row, trace),
            replies,
            2,
            model::executed(store, Op::begin()).0,
            stages::anything(),
        ),
        model::ending(stage, replies) == change(row, Trace { replies, at: 2 }).outcome,
        model::store_after(stage, replies, store) == stages::stage_store(
            |trace: Trace| change(row, trace),
            replies,
            2,
            model::executed(store, Op::begin()).0,
            replies.len() as int,
        ),
{
    let fits = stages::anything();
    let begun = model::executed(store, Op::begin()).0;
    let op = Op::select("game_lobbies"@).where_text("lobby_id"@, lobby).where_text(
        "status"@,
        "OPEN"@,
    );
    let found = |rows: Seq<Row>, trace: Trace|
        if rows.len() == 0 {
            script::fail(trace, LobbyError::Unavailable)
        } else {
            change(rows[0], trace)
        };
    let begin = |rows: Seq<Row>, trace: Trace| script::query(trace, op, found);
    stages::whole_is_underway(stage, replies, store, fits);
    stages::whole_leaves(stage, replies, store);
    assert forall|trace: Trace| #[trigger] stage(trace) == script::query(
        trace,
        Op::begin(),
        begin,
    ) by {
        assert(stage(trace) == lobbies::open_lobby_run(trace, lobby, change));
    }
    let started = stages::asks_store(stage, Op::begin(), begin, replies, 0, store, fits);
    let second: Workflow<T, LobbyError> = |trace: Trace| begin(started, trace);
    let rows = stages::asks_store(second, op, found, replies, 1, begun, fits);
    let third: Workflow<T, LobbyError> = |trace: Trace| found(rows, trace);
    assert(third(Trace { replies, at: 2 }).outcome is Done);
    assert(op.filters =~= while_open(lobby));
    assert(begun.rows("game_lobbies"@) == store.rows("game_lobbies"@));
    let row = rows[0];
    let next: Workflow<T, LobbyError> = |trace: Trace| change(row, trace);
    assert(third =~= next);
    row
}

/// What a successful update of settings leaves behind: the open lobby of the creator holds the
/// settings that were asked for, all four of them, at the next revision; no other lobby and no
/// other table is changed.
pub proof fn updated_settings_are_stored(
    lobby: Seq<char>,
    creator: Seq<char>,
    settings: SettingsView,
    policy: GameCreationPolicy,
    now: Timestamp,
    replies: Seq<Reply>,
    store: Store,
) -> (at: int)
    requires
        model::served(
            rollback_laws::setting(lobby, creator, settings, policy, now),
            replies,
            store,
        ),
        model::ending(
            rollback_laws::setting(lobby, creator, settings, policy, now),
            replies,
        ) is Done,
    ensures
        policy.admits(settings),
        ({
            let before = store.rows("game_lobbies"@);
            let done = model::store_after(
                rollback_laws::setting(lobby, creator, settings, policy, now),
                replies,
                store,
            );
            let after = done.rows("game_lobbies"@);
            &&& lobby_changed(before, after, lobby, at)
            &&& model::datum_in(
                model::found(before, while_open(lobby))[0],
                "creator_user_id"@,
            ) == Datum::Text(creator)
            &&& holds_settings(after[at], settings)
            &&& model::datum_in(after[at], "status"@) == Datum::Text("OPEN"@)
            &&& forall|table: Seq<char>|
                table != "game_lobbies"@ ==> #[trigger] done.rows(table) == store.rows(table)
        }),
{
    let fits = stages::anything();
    let stage = rollback_laws::setting(lobby, creator, settings, policy, now);
    let begun = model::executed(store, Op::begin()).0;
    let setting = |row: Row, trace: Trace|
        lobbies::change_settings_run(trace, row, lobby, settings, now);
    let chosen = |row: Row, user: Seq<char>|
        |members: Seq<(Seq<char>, usize)>, trace: Trace|
            if lobbies::member_index(members, user) is None {
                script::fail(trace, LobbyError::NotReady)
            } else {
                setting(row, trace)
            };
    let change = |row: Row, trace: Trace|
        match lobbies::creator_check(row, creator) {
            Some(error) => script::fail(trace, error),
            None => match settings.first_player {
                FirstView::Chosen(user) => script::chain(
                    lobbies::members_run(trace, lobby),
                    chosen(row, user),
                ),
                _ => setting(row, trace),
            },
        };
    assert(policy.admits(settings));
    assert forall|trace: Trace| #[trigger] stage(trace) == lobbies::open_lobby_run(
        trace,
        lobby,
        change,
    ) by {
        let whole = |row: Row, trace: Trace|
            match lobbies::creator_check(row, creator) {
                Some(error) => script::fail(trace, error),
                None => match settings.first_player {
                    FirstView::Chosen(user) => script::chain(
                        lobbies::members_run(trace, lobby),
                        |members: Seq<(Seq<char>, usize)>, trace: Trace|
                            if lobbies::member_index(members, user) is None {
                                script::fail(trace, LobbyError::NotReady)
                            } else {
                                lobbies::change_settings_run(trace, row, lobby, settings, now)
                            },
                    ),
                    _ => lobbies::change_settings_run(trace, row, lobby, settings, now),
                },
            };
        assert forall|row: Row, trace: Trace| #[trigger] whole(row, trace) == change(
            row,
            trace,
        ) by {
            if let FirstView::Chosen(user) = settings.first_player {
                let inner = |members: Seq<(Seq<char>, usize)>, trace: Trace|
                    if lobbies::member_index(members, user) is None {
                        script::fail(trace, LobbyError::NotReady)
                    } else {
                        lobbies::change_settings_run(trace, row, lobby, settings, now)
                    };
                assert(inner =~= chosen(row, user));
            }
        }
        assert(whole =~= change);
    }
    let row = lobby_is_found(stage, lobby, change, replies, store);
    let second: Workflow<(), LobbyError> = |trace: Trace| change(row, trace);
    assert(second(Trace { replies, at: 2 }).outcome is Done);
    assert(lobbies::creator_check(row, creator) is None);
    model::shown_values(
        row,
        model::found(store.rows("game_lobbies"@), while_open(lobby))[0],
        "creator_user_id"@,
    );
    let count = replies.len() as int;
    let changes = lobbies::settings_changes(settings);
    let last = advancing(changes, lobby, row, now, ());
    let from = if settings.first_player is Chosen {
        let user = settings.first_player->Chosen_0;
        let members = Op::select("game_lobby_members"@).where_text("lobby_id"@, lobby).sort(
            "seat"@,
            store::Direction::Ascending,
        );
        let rest = |rows: Seq<Row>, trace: Trace|
            if lobbies::members_well_formed(rows) {
                chosen(row, user)(
                    Seq::new(rows.len(), |i: int| lobbies::member_row(rows[i])->0),
                    trace,
                )
            } else {
                script::fail(trace, LobbyError::Invalid)
            };
        assert forall|trace: Trace| #[trigger] second(trace) == script::query(
            trace,
            members,
            rest,
        ) by {}
        let rows = stages::asks_store(second, members, rest, replies, 2, begun, fits);
        let third: Workflow<(), LobbyError> = |trace: Trace| rest(rows, trace);
        assert(third(Trace { replies, at: 3 }).outcome is Done);
        assert(third =~= last);
        3int
    } else {
        assert(second =~= last);
        2int
    };
    advance_leaves(changes, lobby, row, now, (), replies, from, begun);
    let revision = row.integer_at("revision"@)->0 as int;
    let now_ms = game::millis_at(now)->0 as int;
    let before = store.rows("game_lobbies"@);
    assert(begun.rows("game_lobbies"@) == before);
    columns_differ();
    assert(changes.values.len() == 5);
    let at = one_lobby_is_changed(before, lobby, revision, changes.values, now_ms);
    let all = changes.values.push(("revision"@, Datum::Integer(revision + 1))).push(
        ("updated_at_ms"@, Datum::Integer(now_ms)),
    );
    model::assigned_sets(before[at], all, 0);
    model::assigned_sets(before[at], all, 1);
    model::assigned_sets(before[at], all, 2);
    model::assigned_sets(before[at], all, 3);
    model::assigned_sets(before[at], all, 4);
    model::assigned_keeps(before[at], all, "status"@);
    assert(model::meets(before[at], while_open(lobby)[1]));
    at
}

/// What a successful cancellation leaves behind: the creator's open lobby is cancelled.
pub proof fn cancelled_lobbies_are_closed(
    lobby: Seq<char>,
    creator: Seq<char>,
    now: Timestamp,
    replies: Seq<Reply>,
    store: Store,
) -> (at: int)
    requires
        model::served(rollback_laws::cancelling(lobby, creator, now), replies, store),
        model::ending(rollback_laws::cancelling(lobby, creator, now), replies) is Done,
    ensures
        ({
            let before = store.rows("game_lobbies"@);
            let done = model::store_after(
                rollback_laws::cancelling(lobby, creator, now),
                replies,
                store,
            );
            let after = done.rows("game_lobbies"@);
            let hits = model::found(before, while_open(lobby));
            &&& lobby_changed(before, after, lobby, at)
            &&& settings_kept(before[at], after[at])
            &&& model::datum_in(after[at], "status"@) == Datum::Text("CANCELLED"@)
            &&& model::datum_in(hits[0], "creator_user_id"@) == Datum::Text(creator)
            &&& forall|table: Seq<char>|
                table != "game_lobbies"@ ==> #[trigger] done.rows(table) == store.rows(table)
        }),
{
    let stage = rollback_laws::cancelling(lobby, creator, now);
    let begun = model::executed(store, Op::begin()).0;
    let changes = Op::update("game_lobbies"@).text("status"@, "CANCELLED"@);
    let change = |row: Row, trace: Trace|
        match lobbies::creator_check(row, creator) {
            Some(error) => script::fail(trace, error),
            None => lobbies::advance_run(trace, changes, lobby, row, now, ()),
        };
    assert forall|trace: Trace| #[trigger] stage(trace) == lobbies::open_lobby_run(
        trace,
        lobby,
        change,
    ) by {}
    let row = lobby_is_found(stage, lobby, change, replies, store);
    let second: Workflow<(), LobbyError> = |trace: Trace| change(row, trace);
    assert(second(Trace { replies, at: 2 }).outcome is Done);
    let last = advancing(changes, lobby, row, now, ());
    assert(second =~= last);
    advance_leaves(changes, lobby, row, now, (), replies, 2, begun);
    let revision = row.integer_at("revision"@)->0 as int;
    let now_ms = game::millis_at(now)->0 as int;
    let before = store.rows("game_lobbies"@);
    assert(begun.rows("game_lobbies"@) == before);
    columns_differ();
    assert(changes.values.len() == 1);
    let at = one_lobby_is_changed(before, lobby, revision, changes.values, now_ms);
    let all = changes.values.push(("revision"@, Datum::Integer(revision + 1))).push(
        ("updated_at_ms"@, Datum::Integer(now_ms)),
    );
    model::assigned_sets(before[at], all, 0);
    model::assigned_keeps(before[at], all, "max_players"@);
    model::assigned_keeps(before[at], all, "board_size"@);
    model::assigned_keeps(before[at], all, "tile_set_count"@);
    model::assigned_keeps(before[at], all, "first_player_policy"@);
    model::assigned_keeps(before[at], all, "chosen_first_user_id"@);
    let hits = model::found(before, while_open(lobby));
    model::shown_values(row, hits[0], "creator_user_id"@);
    at
}

/// Making a lobby.
pub open spec fn creating(
    creator: Seq<char>,
    settings: SettingsView,
    policy: GameCreationPolicy,
    now: Timestamp,
    lifetime: Span,
) -> Workflow<(Seq<char>, Seq<char>), LobbyError> {
    |trace: Trace| lobbies::create_lobby_run(trace, creator, settings, policy, now, lifetime)
}

/// Whether a row is a new lobby's: open at its first revision to whoever has the secret, until it
/// expires, under the settings that were asked for.
pub open spec fn new_lobby(
    record: Record,
    lobby: Seq<char>,
    creator: Seq<char>,
    settings: SettingsView,
    secret: Seq<char>,
    now_ms: i64,
    expires_ms: i64,
) -> bool {
    &&& model::datum_in(record, "lobby_id"@) == Datum::Text(lobby)
    &&& model::datum_in(record, "creator_user_id"@) == Datum::Text(creator)
    &&& model::datum_in(record, "status"@) == Datum::Text("OPEN"@)
    &&& model::datum_in(record, "revision"@) == Datum::Integer(1)
    &&& holds_settings(record, settings)
    &&& model::datum_in(record, "invitation_token_hash"@) == Datum::Text(
        crypto::token_hash_of(secret),
    )
    &&& model::datum_in(record, "invitation_expires_at_ms"@) == Datum::Integer(expires_ms as int)
    &&& model::datum_in(record, "started_game_id"@) == Datum::Null
    &&& model::datum_in(record, "created_at_ms"@) == Datum::Integer(now_ms as int)
    &&& model::datum_in(record, "updated_at_ms"@) == Datum::Integer(now_ms as int)
}

/// Whether a row seats a user in a lobby.
pub open spec fn seats_member(
    record: Record,
    lobby: Seq<char>,
    user: Seq<char>,
    seat: int,
    now_ms: i64,
) -> bool {
    &&& model::datum_in(record, "lobby_id"@) == Datum::Text(lobby)
    &&& model::datum_in(record, "user_id"@) == Datum::Text(user)
    &&& model::datum_in(record, "seat"@) == Datum::Integer(seat)
    &&& model::datum_in(record, "joined_at_ms"@) == Datum::Integer(now_ms as int)
}

/// Whether a lobby and its creator's seat are all that was added to a store.
pub open spec fn lobby_added(
    before: Store,
    after: Store,
    lobby: Seq<char>,
    creator: Seq<char>,
    settings: SettingsView,
    secret: Seq<char>,
    now_ms: i64,
    expires_ms: i64,
) -> bool {
    &&& exists|row: Record| #[trigger]
        new_lobby(row, lobby, creator, settings, secret, now_ms, expires_ms) && after.rows(
            "game_lobbies"@,
        ) == before.rows("game_lobbies"@).push(row)
    &&& exists|member: Record| #[trigger]
        seats_member(member, lobby, creator, 0, now_ms) && after.rows("game_lobby_members"@)
            == before.rows("game_lobby_members"@).push(member)
    &&& forall|table: Seq<char>|
        table != "game_lobbies"@ && table != "game_lobby_members"@ ==> #[trigger] after.rows(table)
            == before.rows(table)
}

proof fn member_is_written(lobby: Seq<char>, user: Seq<char>, seat: int, now_ms: i64)
    ensures
        seats_member(
            model::assigned(
                Map::empty(),
                lobbies::insert_member_op(lobby, user, seat, now_ms).values,
            ),
            lobby,
            user,
            seat,
            now_ms,
        ),
        lobbies::insert_member_op(lobby, user, seat, now_ms).verb == Verb::Insert,
        lobbies::insert_member_op(lobby, user, seat, now_ms).table == "game_lobby_members"@,
{
    reveal_strlit("lobby_id");
    reveal_strlit("user_id");
    reveal_strlit("seat");
    reveal_strlit("joined_at_ms");
    assert("lobby_id"@.len() == 8);
    assert("user_id"@.len() == 7);
    assert("seat"@.len() == 4);
    assert("joined_at_ms"@.len() == 12);
    let values = lobbies::insert_member_op(lobby, user, seat, now_ms).values;
    assert(values.len() == 5);
    model::assigned_sets(Map::empty(), values, 1);
    model::assigned_sets(Map::empty(), values, 2);
    model::assigned_sets(Map::empty(), values, 3);
    model::assigned_sets(Map::empty(), values, 4);
}

proof fn lobby_is_written(
    lobby: Seq<char>,
    creator: Seq<char>,
    settings: SettingsView,
    secret: Seq<char>,
    now_ms: i64,
    expires_ms: i64,
)
    ensures
        ({
            let op = lobbies::insert_lobby_op(
                lobby,
                creator,
                settings,
                crypto::token_hash_of(secret),
                now_ms,
                expires_ms,
            );
            &&& op.verb == Verb::Insert
            &&& op.table == "game_lobbies"@
            &&& new_lobby(
                model::assigned(Map::empty(), op.values),
                lobby,
                creator,
                settings,
                secret,
                now_ms,
                expires_ms,
            )
        }),
{
    let op = lobbies::insert_lobby_op(
        lobby,
        creator,
        settings,
        crypto::token_hash_of(secret),
        now_ms,
        expires_ms,
    );
    let values = op.values;
    columns_differ();
    let names = column_names();
    assert(values.len() == 14);
    assert(forall|i: int| 0 <= i < 14 ==> (#[trigger] values[i]).0 == names[i]) by {
        assert(values[0].0 == names[0]);
        assert(values[1].0 == names[1]);
        assert(values[2].0 == names[2]);
        assert(values[3].0 == names[3]);
        assert(values[4].0 == names[4]);
        assert(values[5].0 == names[5]);
        assert(values[6].0 == names[6]);
        assert(values[7].0 == names[7]);
        assert(values[8].0 == names[8]);
        assert(values[9].0 == names[9]);
        assert(values[10].0 == names[10]);
        assert(values[11].0 == names[11]);
        assert(values[12].0 == names[12]);
        assert(values[13].0 == names[13]);
    }
    assert forall|place: int| 0 <= place < 14 implies #[trigger] model::datum_in(
        model::assigned(Map::empty(), values),
        names[place],
    ) == values[place].1 by {
        assert(values[place].0 == names[place]);
        assert forall|i: int| place < i < values.len() implies (#[trigger] values[i]).0
            != values[place].0 by {
            assert(names[place] != names[i]);
        }
        model::assigned_sets(Map::empty(), values, place);
    }
    let record = model::assigned(Map::empty(), values);
    assert(model::datum_in(record, names[0]) == values[0].1);
    assert(model::datum_in(record, names[1]) == values[1].1);
    assert(model::datum_in(record, names[2]) == values[2].1);
    assert(model::datum_in(record, names[3]) == values[3].1);
    assert(model::datum_in(record, names[4]) == values[4].1);
    assert(model::datum_in(record, names[5]) == values[5].1);
    assert(model::datum_in(record, names[6]) == values[6].1);
    assert(model::datum_in(record, names[7]) == values[7].1);
    assert(model::datum_in(record, names[8]) == values[8].1);
    assert(model::datum_in(record, names[9]) == values[9].1);
    assert(model::datum_in(record, names[10]) == values[10].1);
    assert(model::datum_in(record, names[11]) == values[11].1);
    assert(model::datum_in(record, names[12]) == values[12].1);
    assert(model::datum_in(record, names[13]) == values[13].1);
}

proof fn lobby_is_stored(
    stage: Workflow<(Seq<char>, Seq<char>), LobbyError>,
    lobby: Seq<char>,
    creator: Seq<char>,
    settings: SettingsView,
    secret: Seq<char>,
    now_ms: i64,
    expires_ms: i64,
    replies: Seq<Reply>,
    from: int,
    store: Store,
)
    requires
        forall|trace: Trace| #[trigger]
            stage(trace) == lobbies::store_lobby_run(
                trace,
                lobby,
                creator,
                settings,
                secret,
                now_ms,
                expires_ms,
            ),
        stages::underway(stage, replies, from, store, stages::anything()),
        stage(Trace { replies, at: from }).outcome is Done,
    ensures
        stage(Trace { replies, at: from }).outcome == Outcome::<
            (Seq<char>, Seq<char>),
            LobbyError,
        >::Done((lobby, secret)),
        lobby_added(
            store,
            stages::stage_store(stage, replies, from, store, replies.len() as int),
            lobby,
            creator,
            settings,
            secret,
            now_ms,
            expires_ms,
        ),
{
    let fits = stages::anything();
    let lobby_op = lobbies::insert_lobby_op(
        lobby,
        creator,
        settings,
        crypto::token_hash_of(secret),
        now_ms,
        expires_ms,
    );
    let member_op = lobbies::insert_member_op(lobby, creator, 0, now_ms);
    let finish = |rows: Seq<Row>, trace: Trace|
        script::done::<(Seq<char>, Seq<char>), LobbyError>(trace, (lobby, secret));
    let commit = |rows: Seq<Row>, trace: Trace| script::query(trace, Op::commit(), finish);
    let member = |rows: Seq<Row>, trace: Trace| script::query(trace, member_op, commit);
    let begin = |rows: Seq<Row>, trace: Trace|
        if settings.max_players > i64::MAX {
            script::fail(trace, LobbyError::Invalid)
        } else {
            script::query(trace, lobby_op, member)
        };
    assert forall|trace: Trace| #[trigger] stage(trace) == script::query(
        trace,
        Op::begin(),
        begin,
    ) by {
        assert(stage(trace) == lobbies::store_lobby_run(
            trace,
            lobby,
            creator,
            settings,
            secret,
            now_ms,
            expires_ms,
        ));
    }
    let started = stages::asks_store(stage, Op::begin(), begin, replies, from, store, fits);
    let begun = model::executed(store, Op::begin()).0;
    let second: Workflow<(Seq<char>, Seq<char>), LobbyError> = |trace: Trace|
        begin(started, trace);
    assert(second(Trace { replies, at: from + 1 }).outcome is Done);
    let inserted = stages::asks_store(second, lobby_op, member, replies, from + 1, begun, fits);
    let held = model::executed(begun, lobby_op).0;
    let third: Workflow<(Seq<char>, Seq<char>), LobbyError> = |trace: Trace|
        member(inserted, trace);
    let seated = stages::asks_store(third, member_op, commit, replies, from + 2, held, fits);
    let filled = model::executed(held, member_op).0;
    let fourth: Workflow<(Seq<char>, Seq<char>), LobbyError> = |trace: Trace|
        commit(seated, trace);
    let done = stages::asks_store(
        fourth,
        Op::commit(),
        finish,
        replies,
        from + 3,
        filled,
        fits,
    );
    let last: Workflow<(Seq<char>, Seq<char>), LobbyError> = |trace: Trace| finish(done, trace);
    let after = model::executed(filled, Op::commit()).0;
    stages::nothing_more(last, replies, from + 4, after, replies.len() as int);
    lobby_is_written(lobby, creator, settings, secret, now_ms, expires_ms);
    member_is_written(lobby, creator, 0, now_ms);
    reveal_strlit("game_lobbies");
    reveal_strlit("game_lobby_members");
    assert("game_lobbies"@.len() == 12);
    assert("game_lobby_members"@.len() == 18);
    let row = model::assigned(Map::empty(), lobby_op.values);
    let chair = model::assigned(Map::empty(), member_op.values);
    assert(after.rows("game_lobbies"@) == store.rows("game_lobbies"@).push(row));
    assert(after.rows("game_lobby_members"@) == store.rows("game_lobby_members"@).push(chair));
}

proof fn lobby_is_tried(
    stage: Workflow<(Seq<char>, Seq<char>), LobbyError>,
    creator: Seq<char>,
    settings: SettingsView,
    now_ms: i64,
    expires_ms: i64,
    attempts: int,
    replies: Seq<Reply>,
    from: int,
    store: Store,
    lobby: Seq<char>,
    secret: Seq<char>,
)
    requires
        forall|trace: Trace| #[trigger]
            stage(trace) == lobbies::try_lobby_run(
                trace,
                creator,
                settings,
                now_ms,
                expires_ms,
                attempts,
            ),
        stages::underway(stage, replies, from, store, stages::anything()),
        stage(Trace { replies, at: from }).outcome == Outcome::<
            (Seq<char>, Seq<char>),
            LobbyError,
        >::Done((lobby, secret)),
    ensures
        lobby_added(
            store,
            stages::stage_store(stage, replies, from, store, replies.len() as int),
            lobby,
            creator,
            settings,
            secret,
            now_ms,
            expires_ms,
        ),
        forall|i: int|
            0 <= i < store.rows("game_lobbies"@).len() ==> model::datum_in(
                #[trigger] store.rows("game_lobbies"@)[i],
                "invitation_token_hash"@,
            ) != Datum::Text(crypto::token_hash_of(secret)),
    decreases attempts,
{
    let fits = stages::anything();
    let start = Trace { replies, at: from };
    assert(stage(start) == lobbies::try_lobby_run(
        start,
        creator,
        settings,
        now_ms,
        expires_ms,
        attempts,
    ));
    assert(attempts > 0);
    let lookup = |made: Seq<char>|
        Op::select("game_lobbies"@).where_text(
            "invitation_token_hash"@,
            crypto::token_hash_of(made),
        );
    let rest = |id: Seq<char>, made: Seq<char>|
        |used: Seq<Row>, trace: Trace|
            if used.len() > 0 {
                lobbies::try_lobby_run(trace, creator, settings, now_ms, expires_ms, attempts - 1)
            } else {
                lobbies::store_lobby_run(trace, id, creator, settings, made, now_ms, expires_ms)
            };
    let drawn = |reply: Reply, trace: Trace|
        match reply {
            Reply::Ids(ids) if ids@.len() == 3 => script::query(
                trace,
                lookup(lobbies::secret_of(ids@[1], ids@[2])),
                rest(ids::id_text_of(ids@[0]), lobbies::secret_of(ids@[1], ids@[2])),
            ),
            _ => Run { outcome: Outcome::Mismatch(trace.at - 1), trace },
        };
    assert forall|trace: Trace| #[trigger] stage(trace) == (if trace.spent() {
        Run { outcome: Outcome::Wait(Ask::FreshIds(3)), trace }
    } else {
        drawn(trace.reply(), trace.next())
    }) by {
        assert(stage(trace) == lobbies::try_lobby_run(
            trace,
            creator,
            settings,
            now_ms,
            expires_ms,
            attempts,
        ));
    }
    stages::asks_outside(stage, Ask::FreshIds(3), drawn, replies, from, store, fits);
    let second: Workflow<(Seq<char>, Seq<char>), LobbyError> = |trace: Trace|
        drawn(replies[from], trace);
    let drawn_ids = replies[from]->Ids_0@;
    let made = lobbies::secret_of(drawn_ids[1], drawn_ids[2]);
    let id = ids::id_text_of(drawn_ids[0]);
    let op = lookup(made);
    let used = stages::asks_store(second, op, rest(id, made), replies, from + 1, store, fits);
    let third: Workflow<(Seq<char>, Seq<char>), LobbyError> = |trace: Trace|
        rest(id, made)(used, trace);
    if used.len() > 0 {
        lobby_is_tried(
            third,
            creator,
            settings,
            now_ms,
            expires_ms,
            attempts - 1,
            replies,
            from + 2,
            store,
            lobby,
            secret,
        );
    } else {
        lobby_is_stored(
            third,
            id,
            creator,
            settings,
            made,
            now_ms,
            expires_ms,
            replies,
            from + 2,
            store,
        );
        let table = store.rows("game_lobbies"@);
        model::found_rows(table, op.filters);
        assert(model::executed(store, op).1 == model::found(table, op.filters));
        assert forall|i: int| 0 <= i < table.len() implies model::datum_in(
            #[trigger] table[i],
            "invitation_token_hash"@,
        ) != Datum::Text(crypto::token_hash_of(made)) by {
            if model::datum_in(table[i], "invitation_token_hash"@) == Datum::Text(
                crypto::token_hash_of(made),
            ) {
                assert(model::meets(table[i], op.filters[0]));
                assert(model::meets_all(table[i], op.filters));
            }
        }
    }
}

/// A lobby that was made stands open in the store under the settings that were asked for, with its
/// creator on the first seat, under a secret that no lobby had, until its lifetime is over; the
/// policy admits the settings, and nothing else was written.
pub proof fn created_lobbies_are_open(
    creator: Seq<char>,
    settings: SettingsView,
    policy: GameCreationPolicy,
    now: Timestamp,
    lifetime: Span,
    replies: Seq<Reply>,
    store: Store,
    lobby: Seq<char>,
    secret: Seq<char>,
)
    requires
        model::served(creating(creator, settings, policy, now, lifetime), replies, store),
        model::ending(creating(creator, settings, policy, now, lifetime), replies) == Outcome::<
            (Seq<char>, Seq<char>),
            LobbyError,
        >::Done((lobby, secret)),
    ensures
        policy.admits(settings),
        settings.first_player matches FirstView::Chosen(user) ==> user == creator,
        game::millis_at(now) is Some,
        game::moment_after(now, lifetime) is Some,
        game::millis_at(game::moment_after(now, lifetime)->0) is Some,
        lobby_added(
            store,
            model::store_after(creating(creator, settings, policy, now, lifetime), replies, store),
            lobby,
            creator,
            settings,
            secret,
            game::millis_at(now)->0,
            game::millis_at(game::moment_after(now, lifetime)->0)->0,
        ),
        forall|i: int|
            0 <= i < store.rows("game_lobbies"@).len() ==> model::datum_in(
                #[trigger] store.rows("game_lobbies"@)[i],
                "invitation_token_hash"@,
            ) != Datum::Text(crypto::token_hash_of(secret)),
{
    let workflow = creating(creator, settings, policy, now, lifetime);
    stages::whole_is_underway(workflow, replies, store, stages::anything());
    stages::whole_leaves(workflow, replies, store);
    assert(workflow(Trace { replies, at: 0 }).outcome is Done);
    let now_ms = game::millis_at(now)->0;
    let expires_ms = game::millis_at(game::moment_after(now, lifetime)->0)->0;
    lobby_is_tried(
        workflow,
        creator,
        settings,
        now_ms,
        expires_ms,
        4,
        replies,
        0,
        store,
        lobby,
        secret,
    );
}

/// A user who was let into a lobby sits on the next seat, and the lobby has advanced by one
/// revision under the settings that it had; nothing else was written.
pub proof fn admitted_users_are_seated(
    secret: Seq<char>,
    user: Seq<char>,
    policy: GameCreationPolicy,
    now: Timestamp,
    replies: Seq<Reply>,
    store: Store,
    lobby: Seq<char>,
) -> (at: int)
    requires
        model::served(lobby_laws::joining(secret, user, policy, now), replies, store),
        model::ending(lobby_laws::joining(secret, user, policy, now), replies) == Outcome::<
            Seq<char>,
            LobbyError,
        >::Done(lobby),
    ensures
        ({
            let before = store.rows("game_lobbies"@);
            let done = model::store_after(
                lobby_laws::joining(secret, user, policy, now),
                replies,
                store,
            );
            let after = done.rows("game_lobbies"@);
            &&& game::millis_at(now) is Some
            &&& lobby_changed(before, after, lobby, at)
            &&& settings_kept(before[at], after[at])
            &&& model::datum_in(after[at], "status"@) == Datum::Text("OPEN"@)
            &&& exists|member: Record| #[trigger]
                seats_member(
                    member,
                    lobby,
                    user,
                    lobby_laws::members_of(store, lobby).len() as int,
                    game::millis_at(now)->0,
                ) && done.rows("game_lobby_members"@) == store.rows("game_lobby_members"@).push(
                    member,
                )
            &&& forall|table: Seq<char>|
                table != "game_lobbies"@ && table != "game_lobby_members"@ ==> #[trigger] done.rows(
                    table,
                ) == store.rows(table)
        }),
{
    let fits = stages::anything();
    let stage = lobby_laws::joining(secret, user, policy, now);
    let begun = model::executed(store, Op::begin()).0;
    let count = replies.len() as int;
    let lookup = Op::select("game_lobbies"@).where_text(
        "invitation_token_hash"@,
        crypto::token_hash_of(secret),
    ).where_text("status"@, "OPEN"@);
    let found = |rows: Seq<Row>, trace: Trace|
        if rows.len() == 0 {
            script::fail(trace, LobbyError::Unavailable)
        } else {
            match rows[0].text_at("lobby_id"@) {
                None => script::fail(trace, LobbyError::Invalid),
                Some(lobby) => lobbies::admit_run(trace, rows[0], lobby, user, policy, now),
            }
        };
    let begin = |rows: Seq<Row>, trace: Trace| script::query(trace, lookup, found);
    stages::whole_is_underway(stage, replies, store, fits);
    stages::whole_leaves(stage, replies, store);
    assert forall|trace: Trace| #[trigger] stage(trace) == script::query(
        trace,
        Op::begin(),
        begin,
    ) by {}
    let started = stages::asks_store(stage, Op::begin(), begin, replies, 0, store, fits);
    let second: Workflow<Seq<char>, LobbyError> = |trace: Trace| begin(started, trace);
    let rows = stages::asks_store(second, lookup, found, replies, 1, begun, fits);
    let third: Workflow<Seq<char>, LobbyError> = |trace: Trace| found(rows, trace);
    assert(third(Trace { replies, at: 2 }).outcome is Done);
    let row = rows[0];
    let id = row.text_at("lobby_id"@)->0;
    let now_ms = game::millis_at(now)->0;
    let members = Op::select("game_lobby_members"@).where_text("lobby_id"@, id).sort(
        "seat"@,
        store::Direction::Ascending,
    );
    let advance = |rows: Seq<Row>, trace: Trace|
        lobbies::advance_run(trace, Op::update("game_lobbies"@), id, row, now, id);
    let settings = lobbies::settings_of(row)->0;
    let counted = |listed: Seq<Row>, trace: Trace|
        if lobbies::members_well_formed(listed) {
            let users = Seq::new(listed.len(), |i: int| lobbies::member_row(listed[i])->0);
            if users.len() >= settings.max_players || lobbies::member_index(users, user) is Some {
                script::fail(trace, LobbyError::Unavailable)
            } else if users.len() > i64::MAX {
                script::fail(trace, LobbyError::Invalid)
            } else {
                script::query(
                    trace,
                    lobbies::insert_member_op(id, user, users.len() as int, now_ms),
                    advance,
                )
            }
        } else {
            script::fail(trace, LobbyError::Invalid)
        };
    assert(third(Trace { replies, at: 2 }) == lobbies::admit_run(
        Trace { replies, at: 2 },
        row,
        id,
        user,
        policy,
        now,
    ));
    assert forall|trace: Trace| #[trigger] third(trace) == script::query(
        trace,
        members,
        counted,
    ) by {}
    let listed = stages::asks_store(third, members, counted, replies, 2, begun, fits);
    let fourth: Workflow<Seq<char>, LobbyError> = |trace: Trace| counted(listed, trace);
    assert(fourth(Trace { replies, at: 3 }).outcome is Done);
    let seat = listed.len() as int;
    let insert = lobbies::insert_member_op(id, user, seat, now_ms);
    assert forall|trace: Trace| #[trigger] fourth(trace) == script::query(
        trace,
        insert,
        advance,
    ) by {}
    let inserted = stages::asks_store(fourth, insert, advance, replies, 3, begun, fits);
    let held = model::executed(begun, insert).0;
    let fifth: Workflow<Seq<char>, LobbyError> = |trace: Trace| advance(inserted, trace);
    let changes = Op::update("game_lobbies"@);
    let last = advancing(changes, id, row, now, id);
    assert(fifth =~= last);
    assert(last(Trace { replies, at: 4 }).outcome is Done);
    advance_leaves(changes, id, row, now, id, replies, 4, held);
    assert(id == lobby);
    member_is_written(lobby, user, seat, now_ms);
    reveal_strlit("game_lobbies");
    reveal_strlit("game_lobby_members");
    assert("game_lobbies"@.len() == 12);
    assert("game_lobby_members"@.len() == 18);
    let revision = row.integer_at("revision"@)->0 as int;
    let before = store.rows("game_lobbies"@);
    assert(held.rows("game_lobbies"@) == before);
    columns_differ();
    assert(changes.values.len() == 0);
    let at = one_lobby_is_changed(before, lobby, revision, changes.values, now_ms as int);
    let all = changes.values.push(("revision"@, Datum::Integer(revision + 1))).push(
        ("updated_at_ms"@, Datum::Integer(now_ms as int)),
    );
    assert(all.len() == 2);
    model::assigned_keeps(before[at], all, "status"@);
    model::assigned_keeps(before[at], all, "max_players"@);
    model::assigned_keeps(before[at], all, "board_size"@);
    model::assigned_keeps(before[at], all, "tile_set_count"@);
    model::assigned_keeps(before[at], all, "first_player_policy"@);
    model::assigned_keeps(before[at], all, "chosen_first_user_id"@);
    assert(model::meets(before[at], while_open(lobby)[1]));
    let hits = lobby_laws::members_of(store, lobby);
    let sorts = |left: Record, right: Record|
        model::sorts_before(left, right, "seat"@, store::Direction::Ascending);
    crate::order::arranged_keeps_elements(hits, sorts);
    assert(begun.rows("game_lobby_members"@) == store.rows("game_lobby_members"@));
    assert(model::executed(begun, members).1.len() == hits.len());
    let chair = model::assigned(Map::empty(), insert.values);
    assert(held.rows("game_lobby_members"@) == store.rows("game_lobby_members"@).push(chair));
    at
}

/// Loading a lobby.
pub open spec fn loading(lobby: Seq<char>, user: Seq<char>) -> Workflow<LobbyView, LobbyError> {
    |trace: Trace| lobbies::load_lobby_run(trace, lobby, user)
}

/// Whether settings are those that a lobby's row tells of.
pub open spec fn tells_settings(record: Record, settings: SettingsView) -> bool {
    &&& model::datum_in(record, "max_players"@) == Datum::Integer(settings.max_players as int)
    &&& model::datum_in(record, "board_size"@) == Datum::Integer(settings.board_size as int)
    &&& model::datum_in(record, "tile_set_count"@) == Datum::Integer(
        settings.tile_set_count as int,
    )
    &&& match settings.first_player {
        FirstView::Random => model::datum_in(record, "first_player_policy"@) == Datum::Text(
            "RANDOM"@,
        ),
        FirstView::Creator => model::datum_in(record, "first_player_policy"@) == Datum::Text(
            "CREATOR"@,
        ),
        FirstView::Chosen(user) => model::datum_in(record, "first_player_policy"@) == Datum::Text(
            "CHOSEN"@,
        ) && model::datum_in(record, "chosen_first_user_id"@) == Datum::Text(user),
    }
}

/// A lobby is shown to its members as it is stored: its creator, its state, its settings, its
/// members in seat order, and the game that it has started.
pub proof fn lobbies_are_shown_as_stored(
    lobby: Seq<char>,
    user: Seq<char>,
    replies: Seq<Reply>,
    store: Store,
    view: LobbyView,
)
    requires
        model::served(loading(lobby, user), replies, store),
        model::ending(loading(lobby, user), replies) == Outcome::<LobbyView, LobbyError>::Done(
            view,
        ),
    ensures
        view.lobby_id == lobby,
        ({
            let hits = model::found(
                store.rows("game_lobbies"@),
                seq![("lobby_id"@, Relation::Equal, Datum::Text(lobby))],
            );
            let listed = model::sorted(
                lobby_laws::members_of(store, lobby),
                Some(("seat"@, store::Direction::Ascending)),
            );
            &&& hits.len() > 0
            &&& model::datum_in(hits[0], "creator_user_id"@) == Datum::Text(view.creator_user_id)
            &&& model::datum_in(hits[0], "status"@) == Datum::Text(view.status)
            &&& model::datum_in(hits[0], "revision"@) == Datum::Integer(view.revision as int)
            &&& tells_settings(hits[0], view.settings)
            &&& view.started_game_id is None <==> !(model::datum_in(
                hits[0],
                "started_game_id"@,
            ) is Text)
            &&& view.started_game_id matches Some(game) ==> (model::datum_in(
                hits[0],
                "started_game_id"@,
            ) matches Datum::Text(text) && ids::parsed_id(text) == Some(game))
            &&& view.members.len() == listed.len()
            &&& forall|i: int|
                0 <= i < listed.len() ==> model::datum_in(#[trigger] listed[i], "user_id"@)
                    == Datum::Text(view.members[i].0) && model::datum_in(listed[i], "seat"@)
                    == Datum::Integer(view.members[i].1 as int)
        }),
        exists|i: int| 0 <= i < view.members.len() && (#[trigger] view.members[i]).0 == user,
{
    let fits = stages::anything();
    let stage = loading(lobby, user);
    stages::whole_is_underway(stage, replies, store, fits);
    let members = Op::select("game_lobby_members"@).where_text("lobby_id"@, lobby).sort(
        "seat"@,
        store::Direction::Ascending,
    );
    let lookup = Op::select("game_lobbies"@).where_text("lobby_id"@, lobby);
    let read = |users: Seq<(Seq<char>, usize)>|
        |rows: Seq<Row>, trace: Trace|
            if rows.len() == 0 {
                script::fail(trace, LobbyError::Unavailable)
            } else {
                match lobbies::lobby_row(rows[0], lobby, users) {
                    Some(view) => script::done(trace, view),
                    None => script::fail(trace, LobbyError::Invalid),
                }
            };
    let counted = |listed: Seq<Row>, trace: Trace|
        if lobbies::members_well_formed(listed) {
            let users = Seq::new(listed.len(), |i: int| lobbies::member_row(listed[i])->0);
            if lobbies::member_index(users, user) is None {
                script::fail(trace, LobbyError::Unavailable)
            } else {
                script::query(trace, lookup, read(users))
            }
        } else {
            script::fail(trace, LobbyError::Invalid)
        };
    assert forall|trace: Trace| #[trigger] stage(trace) == script::query(
        trace,
        members,
        counted,
    ) by {}
    let listed = stages::asks_store(stage, members, counted, replies, 0, store, fits);
    let users = Seq::new(listed.len(), |i: int| lobbies::member_row(listed[i])->0);
    let second: Workflow<LobbyView, LobbyError> = |trace: Trace| counted(listed, trace);
    assert(second(Trace { replies, at: 1 }).outcome is Done);
    let rows = stages::asks_store(second, lookup, read(users), replies, 1, store, fits);
    assert(lookup.filters =~= seq![("lobby_id"@, Relation::Equal, Datum::Text(lobby))]);
    let hits = model::found(
        store.rows("game_lobbies"@),
        seq![("lobby_id"@, Relation::Equal, Datum::Text(lobby))],
    );
    assert(model::executed(store, lookup).1 == hits);
    assert(lobbies::lobby_row(rows[0], lobby, users) == Some(view));
    let row = rows[0];
    model::shown_values(row, hits[0], "creator_user_id"@);
    model::shown_values(row, hits[0], "status"@);
    model::shown_values(row, hits[0], "revision"@);
    model::shown_values(row, hits[0], "max_players"@);
    model::shown_values(row, hits[0], "board_size"@);
    model::shown_values(row, hits[0], "tile_set_count"@);
    model::shown_values(row, hits[0], "first_player_policy"@);
    model::shown_values(row, hits[0], "chosen_first_user_id"@);
    model::shown_values(row, hits[0], "started_game_id"@);
    assert(row.column("started_game_id"@) is None ==> model::datum_in(
        hits[0],
        "started_game_id"@,
    ) is Null);
    assert(row.column("chosen_first_user_id"@) is None ==> model::datum_in(
        hits[0],
        "chosen_first_user_id"@,
    ) is Null);
    let order = model::sorted(
        lobby_laws::members_of(store, lobby),
        Some(("seat"@, store::Direction::Ascending)),
    );
    assert(members.filters =~= lobby_laws::members_op(lobby).filters);
    assert(model::executed(store, members).1 == order);
    assert forall|i: int| 0 <= i < order.len() implies model::datum_in(
        #[trigger] order[i],
        "user_id"@,
    ) == Datum::Text(view.members[i].0) && model::datum_in(order[i], "seat"@) == Datum::Integer(
        view.members[i].1 as int,
    ) by {
        model::shown_values(listed[i], order[i], "user_id"@);
        model::shown_values(listed[i], order[i], "seat"@);
        assert(lobbies::member_row(listed[i]) is Some);
    }
    member_is_listed(users, user);
}

proof fn member_is_listed(members: Seq<(Seq<char>, usize)>, user: Seq<char>)
    requires
        lobbies::member_index(members, user) is Some,
    ensures
        exists|i: int| 0 <= i < members.len() && (#[trigger] members[i]).0 == user,
    decreases members.len(),
{
    if members.len() > 0 && members[0].0 != user {
        let rest = members.skip(1);
        member_is_listed(rest, user);
        let i = choose|i: int| 0 <= i < rest.len() && (#[trigger] rest[i]).0 == user;
        assert(members[i + 1] == rest[i]);
    }
}

} // verus!
