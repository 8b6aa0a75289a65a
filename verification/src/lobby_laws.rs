//! What lobbies promise: who is let in, and that a lobby starts one game.
//!
//! Every law speaks of workflows whose replies a store of [`crate::model`] gives.
use crate::challenges::{self, ChallengeError, CreationView, GameVisibilitySettings};
use crate::crypto;
use crate::exactly_once;
use crate::frames;
use crate::game::{self, GameId, Timestamp};
use crate::ids;
use crate::lobbies::{self, GameCreationPolicy, LobbyError};
use crate::model::{self, Record, Store, Workflow};
use crate::script::{self, Ask, Outcome, Reply, Run, Trace};
use crate::steady;
use crate::store::{Datum, Direction, Op, Relation, Row, Value, Verb};
use vstd::prelude::*;

verus! {

/// Starting a lobby.
pub open spec fn starting(
    lobby: Seq<char>,
    creator: Seq<char>,
    policy: GameCreationPolicy,
    now: Timestamp,
    seed: u64,
) -> Workflow<GameId, LobbyError> {
    |trace: Trace| lobbies::start_lobby_run(trace, lobby, creator, policy, now, seed)
}

/// Whether a store has a lobby of a creator that has started a game.
pub open spec fn has_started(
    store: Store,
    lobby: Seq<char>,
    creator: Seq<char>,
    game: GameId,
) -> bool {
    let rows = store.rows("game_lobbies"@);
    exists|i: int|
        0 <= i < rows.len() && model::datum_in(#[trigger] rows[i], "lobby_id"@) == Datum::Text(
            lobby,
        ) && started_row(rows[i], creator, game)
}

pub open spec fn started_row(record: Record, creator: Seq<char>, game: GameId) -> bool {
    &&& model::datum_in(record, "creator_user_id"@) == Datum::Text(creator)
    &&& model::datum_in(record, "status"@) == Datum::Text("STARTED"@)
    &&& model::datum_in(record, "started_game_id"@) matches Datum::Text(text) && ids::parsed_id(
        text,
    ) == Some(game)
}

/// The request for a lobby.
pub open spec fn lobby_op(lobby: Seq<char>) -> Op {
    Op::select("game_lobbies"@).where_text("lobby_id"@, lobby)
}

/// The only row with a key is what a request for that key finds.
proof fn keyed_row_is_found(rows: Seq<Record>, op: Op, at: int)
    requires
        op.filters.len() == 1,
        op.filters[0].1 == Relation::Equal,
        op.filters[0].2 is Text,
        exactly_once::unique_text(rows, op.filters[0].0),
        0 <= at < rows.len(),
        model::datum_in(rows[at], op.filters[0].0) == op.filters[0].2,
    ensures
        model::found(rows, op.filters).len() > 0,
        model::found(rows, op.filters)[0] == rows[at],
{
    model::found_rows(rows, op.filters);
    assert(model::meets_all(rows[at], op.filters)) by {
        assert(model::meets(rows[at], op.filters[0]));
    }
    let hit = model::found(rows, op.filters)[0];
    let i = choose|i: int| 0 <= i < rows.len() && rows[i] == hit;
    assert(model::meets(hit, op.filters[0]));
    if i < at {
        assert(model::datum_in(rows[i], op.filters[0].0) != model::datum_in(
            rows[at],
            op.filters[0].0,
        ));
    }
    if at < i {
        assert(model::datum_in(rows[at], op.filters[0].0) != model::datum_in(
            rows[i],
            op.filters[0].0,
        ));
    }
}

/// A lobby that has started yields its game again, and nothing is written.
pub proof fn started_lobbies_yield_their_game(
    lobby: Seq<char>,
    creator: Seq<char>,
    policy: GameCreationPolicy,
    now: Timestamp,
    seed: u64,
    replies: Seq<Reply>,
    store: Store,
    game: GameId,
)
    requires
        exactly_once::unique_text(store.rows("game_lobbies"@), "lobby_id"@),
        has_started(store, lobby, creator, game),
        model::served(starting(lobby, creator, policy, now, seed), replies, store),
        !(model::ending(starting(lobby, creator, policy, now, seed), replies) is Wait),
    ensures
        model::ending(starting(lobby, creator, policy, now, seed), replies) == Outcome::<
            GameId,
            LobbyError,
        >::Done(game),
        model::store_after(
            starting(lobby, creator, policy, now, seed),
            replies,
            store,
        ).tables == store.tables,
{
    let workflow = starting(lobby, creator, policy, now, seed);
    let op = lobby_op(lobby);
    let rows = store.rows("game_lobbies"@);
    let at = choose|i: int|
        0 <= i < rows.len() && model::datum_in(#[trigger] rows[i], "lobby_id"@) == Datum::Text(
            lobby,
        ) && started_row(rows[i], creator, game);
    keyed_row_is_found(rows, op, at);
    assert(model::asked(workflow, replies, 0) == Some(Ask::Store(Op::begin())));
    assert(replies.len() > 1) by {
        assert(replies =~= replies.take(replies.len() as int));
        if replies.len() > 0 {
            assert(model::served_at(workflow, replies, store, 0));
        }
    }
    assert(model::served_at(workflow, replies, store, 0));
    assert(replies.take(1)[0] == replies[0]);
    assert(model::asked(workflow, replies, 1) == Some(Ask::Store(op)));
    let begun = model::executed(store, Op::begin()).0;
    assert(model::store_at(workflow, replies, store, 1) == begun);
    assert(begun.rows("game_lobbies"@) == rows);
    assert(model::served_at(workflow, replies, store, 1));
    assert(model::store_at(workflow, replies, store, 2) == begun);
    let shown = replies[1]->Rows_0@[0];
    model::shown_values(shown, rows[at], "creator_user_id"@);
    model::shown_values(shown, rows[at], "status"@);
    model::shown_values(shown, rows[at], "started_game_id"@);
    assert(shown.column("started_game_id"@) is Some);
    if replies.len() > 2 {
        assert(replies.take(2)[0] == replies[0]);
        assert(replies.take(2)[1] == replies[1]);
        assert(model::served_at(workflow, replies, store, 2));
    }
}

/// The request for a lobby's members in seat order.
pub open spec fn members_op(lobby: Seq<char>) -> Op {
    Op::select("game_lobby_members"@).where_text("lobby_id"@, lobby).sort(
        "seat"@,
        Direction::Ascending,
    )
}

/// The creation of a lobby's game behind the first four replies of a start.
pub open spec fn lobby_creation(
    replies: Seq<Reply>,
    lobby: Seq<char>,
    creator: Seq<char>,
    now: Timestamp,
    seed: u64,
) -> CreationView {
    let row = replies[1]->Rows_0@[0];
    let rows = replies[2]->Rows_0@;
    let members = Seq::new(rows.len(), |i: int| lobbies::member_row(rows[i])->0);
    CreationView {
        users: lobbies::member_users(members),
        first: lobbies::first_index(
            lobbies::settings_of(row)->0.first_player,
            members,
            creator,
            seed,
        )->0,
        rules: script::reply_rules(replies[3])->0,
        now,
        seed,
        key: "start-lobby:"@ + lobby,
        visibility: GameVisibilitySettings::hidden(),
    }
}

/// Behind the first four replies, a start that leads to a game creates it and marks the lobby.
proof fn start_goes_on(
    lobby: Seq<char>,
    creator: Seq<char>,
    policy: GameCreationPolicy,
    now: Timestamp,
    seed: u64,
    replies: Seq<Reply>,
    count: int,
)
    requires
        model::ending(starting(lobby, creator, policy, now, seed), replies) is Done,
        replies.len() > 1,
        replies[1] is Rows,
        replies[1]->Rows_0@.len() > 0,
        replies[1]->Rows_0@[0].text_at("status"@) != Some("STARTED"@),
        4 <= count <= replies.len(),
    ensures
        starting(lobby, creator, policy, now, seed)(
            Trace { replies: replies.take(count), at: 0 },
        ) == script::chain(
            script::lift(
                challenges::create_game_run(
                    Trace { replies: replies.take(count), at: 4 },
                    lobby_creation(replies, lobby, creator, now, seed),
                ),
                |error: ChallengeError| LobbyError::GameCreation(error),
            ),
            |game: GameId, trace: Trace|
                lobbies::finish_start_run(trace, replies[1]->Rows_0@[0], lobby, game, now),
        ),
{
    let cut = replies.take(count);
    assert(cut[0] == replies[0]);
    assert(cut[1] == replies[1]);
    assert(cut[2] == replies[2]);
    assert(cut[3] == replies[3]);
}

/// What a start has read and asked before it creates the game.
proof fn start_begins(
    lobby: Seq<char>,
    creator: Seq<char>,
    policy: GameCreationPolicy,
    now: Timestamp,
    seed: u64,
    replies: Seq<Reply>,
    store: Store,
)
    requires
        model::served(starting(lobby, creator, policy, now, seed), replies, store),
        model::ending(starting(lobby, creator, policy, now, seed), replies) is Done,
    ensures
        ({
            let workflow = starting(lobby, creator, policy, now, seed);
            let op = lobby_op(lobby);
            let hits = model::found(store.rows("game_lobbies"@), op.filters);
            let begun = model::executed(store, Op::begin()).0;
            &&& replies.len() > 1
            &&& replies[0] is Rows
            &&& replies[1] is Rows
            &&& hits.len() > 0
            &&& model::all_shown(replies[1]->Rows_0@, hits)
            &&& lobbies::creator_check(replies[1]->Rows_0@[0], creator) is None
            &&& model::store_at(workflow, replies, store, 2) == begun
            &&& replies[1]->Rows_0@[0].text_at("status"@) == Some("STARTED"@) ==> replies.len()
                == 2 && (lobbies::started_game_of(replies[1]->Rows_0@[0]) matches Some(Some(game))
                && model::ending(workflow, replies) == Outcome::<GameId, LobbyError>::Done(game))
            &&& replies[1]->Rows_0@[0].text_at("status"@) != Some("STARTED"@)
                ==> replies[1]->Rows_0@[0].text_at("status"@) == Some("OPEN"@) && replies.len() > 4
                && model::store_at(workflow, replies, store, 4) == begun
        }),
{
    let workflow = starting(lobby, creator, policy, now, seed);
    let op = lobby_op(lobby);
    let begun = model::executed(store, Op::begin()).0;
    assert(replies =~= replies.take(replies.len() as int));
    assert(model::asked(workflow, replies, 0) == Some(Ask::Store(Op::begin())));
    assert(model::served_at(workflow, replies, store, 0));
    assert(replies.take(1)[0] == replies[0]);
    assert(model::asked(workflow, replies, 1) == Some(Ask::Store(op)));
    assert(model::store_at(workflow, replies, store, 1) == begun);
    assert(begun.rows("game_lobbies"@) == store.rows("game_lobbies"@));
    assert(model::served_at(workflow, replies, store, 1));
    assert(model::store_at(workflow, replies, store, 2) == begun);
    if replies.len() > 2 {
        assert(replies.take(2)[0] == replies[0]);
        assert(replies.take(2)[1] == replies[1]);
        assert(model::served_at(workflow, replies, store, 2));
    }
    if replies[1]->Rows_0@[0].text_at("status"@) != Some("STARTED"@) {
        assert(replies.len() > 3);
        assert(model::asked(workflow, replies, 2) == Some(Ask::Store(members_op(lobby))));
        assert(model::store_at(workflow, replies, store, 3) == begun);
        assert(replies.take(3)[0] == replies[0]);
        assert(replies.take(3)[1] == replies[1]);
        assert(replies.take(3)[2] == replies[2]);
        assert(!(model::asked(workflow, replies, 3) matches Some(Ask::Store(_))));
    }
}

/// What marks a lobby started keeps its creator and sets its game.
proof fn mark_sets(record: Record, lobby: Seq<char>, revision: i64, game: GameId, now_ms: i64)
    ensures
        ({
            let op = lobbies::mark_started_op(lobby, revision, game, now_ms);
            let marked = model::assigned(record, op.values);
            &&& model::datum_in(marked, "lobby_id"@) == model::datum_in(record, "lobby_id"@)
            &&& model::datum_in(marked, "creator_user_id"@) == model::datum_in(
                record,
                "creator_user_id"@,
            )
            &&& model::datum_in(marked, "status"@) == Datum::Text("STARTED"@)
            &&& model::datum_in(marked, "started_game_id"@) == Datum::Text(ids::id_text_of(game))
        }),
{
    let values = lobbies::mark_started_op(lobby, revision, game, now_ms).values;
    reveal_strlit("lobby_id");
    reveal_strlit("creator_user_id");
    reveal_strlit("status");
    reveal_strlit("revision");
    reveal_strlit("started_game_id");
    reveal_strlit("updated_at_ms");
    assert("lobby_id"@.len() == 8 && "lobby_id"@[0] == 'l');
    assert("creator_user_id"@.len() == 15 && "creator_user_id"@[0] == 'c');
    assert("status"@.len() == 6);
    assert("revision"@.len() == 8 && "revision"@[0] == 'r');
    assert("started_game_id"@.len() == 15 && "started_game_id"@[0] == 's');
    assert("updated_at_ms"@.len() == 13);
    model::assigned_keeps(record, values, "lobby_id"@);
    model::assigned_keeps(record, values, "creator_user_id"@);
    model::assigned_sets(record, values, 0);
    model::assigned_sets(record, values, 2);
}

/// While a start creates its game, it keeps to the tables of games.
proof fn start_creates(
    lobby: Seq<char>,
    creator: Seq<char>,
    policy: GameCreationPolicy,
    now: Timestamp,
    seed: u64,
    replies: Seq<Reply>,
    place: int,
)
    requires
        model::ending(starting(lobby, creator, policy, now, seed), replies) is Done,
        replies.len() > 1,
        replies[1] is Rows,
        replies[1]->Rows_0@.len() > 0,
        replies[1]->Rows_0@[0].text_at("status"@) != Some("STARTED"@),
        4 <= place < challenges::create_game_run(
            Trace { replies, at: 4 },
            lobby_creation(replies, lobby, creator, now, seed),
        ).trace.at,
        place <= replies.len(),
    ensures
        model::asked(starting(lobby, creator, policy, now, seed), replies, place) matches Some(ask)
            ==> frames::game_ask(ask),
{
    let creation = lobby_creation(replies, lobby, creator, now, seed);
    start_goes_on(lobby, creator, policy, now, seed, replies, place);
    steady::creating_is_steady(replies, 4, place, creation);
    frames::creation_keeps(Trace { replies: replies.take(place), at: 4 }, creation);
}

/// What a start does to its lobby when it creates a game.
#[verifier::spinoff_prover]
#[verifier::rlimit(60)]
proof fn start_marks(
    lobby: Seq<char>,
    creator: Seq<char>,
    policy: GameCreationPolicy,
    now: Timestamp,
    seed: u64,
    replies: Seq<Reply>,
    store: Store,
    game: GameId,
)
    requires
        model::served(starting(lobby, creator, policy, now, seed), replies, store),
        model::ending(starting(lobby, creator, policy, now, seed), replies) == Outcome::<
            GameId,
            LobbyError,
        >::Done(game),
        replies.len() > 1,
        replies[1] is Rows,
        replies[1]->Rows_0@.len() > 0,
        replies[1]->Rows_0@[0].text_at("status"@) != Some("STARTED"@),
    ensures
        ({
            let row = replies[1]->Rows_0@[0];
            let revision = row.integer_at("revision"@);
            let now_ms = game::millis_at(now);
            let op = lobbies::mark_started_op(lobby, revision->0, game, now_ms->0);
            &&& revision is Some
            &&& now_ms is Some
            &&& model::store_after(
                starting(lobby, creator, policy, now, seed),
                replies,
                store,
            ).rows("game_lobbies"@) == model::updated(
                store.rows("game_lobbies"@),
                op.filters,
                op.values,
            )
        }),
{
    let workflow = starting(lobby, creator, policy, now, seed);
    let creation = lobby_creation(replies, lobby, creator, now, seed);
    let row = replies[1]->Rows_0@[0];
    start_begins(lobby, creator, policy, now, seed, replies, store);
    start_goes_on(lobby, creator, policy, now, seed, replies, replies.len() as int);
    assert(replies.take(replies.len() as int) =~= replies);
    let made = challenges::create_game_run(Trace { replies, at: 4 }, creation);
    steady::creating_is_steady(replies, 4, replies.len() as int, creation);
    let end = made.trace.at;
    let now_ms = game::millis_at(now)->0;
    let op = lobbies::mark_started_op(lobby, row.integer_at("revision"@)->0, game, now_ms);
    assert(4 <= end && end + 1 < replies.len());
    assert forall|place: int| 4 <= place < end implies ((#[trigger] model::asked(
        workflow,
        replies,
        place,
    )) matches Some(ask) ==> frames::game_ask(ask) || ask == Ask::Store(Op::commit())) by {
        start_creates(lobby, creator, policy, now, seed, replies, place);
    }
    frames::other_tables();
    frames::table_stays(workflow, replies, store, 4, end, "game_lobbies"@);
    start_goes_on(lobby, creator, policy, now, seed, replies, end);
    steady::creating_is_steady(replies, 4, end, creation);
    assert(model::asked(workflow, replies, end) == Some(Ask::Store(op)));
    let before = model::store_at(workflow, replies, store, end);
    let marked = model::executed(before, op).0;
    assert(model::store_at(workflow, replies, store, end + 1) == marked);
    assert(model::served_at(workflow, replies, store, end));
    start_goes_on(lobby, creator, policy, now, seed, replies, end + 1);
    steady::creating_is_steady(replies, 4, end + 1, creation);
    assert(replies.take(end + 1)[end] == replies[end]);
    assert(model::asked(workflow, replies, end + 1) == Some(Ask::Store(Op::commit())));
    assert(model::served_at(workflow, replies, store, end + 1));
    let after = model::executed(marked, Op::commit()).0;
    assert(model::store_at(workflow, replies, store, end + 2) == after);
    if replies.len() > end + 2 {
        start_goes_on(lobby, creator, policy, now, seed, replies, end + 2);
        steady::creating_is_steady(replies, 4, end + 2, creation);
        assert(replies.take(end + 2)[end] == replies[end]);
        assert(replies.take(end + 2)[end + 1] == replies[end + 1]);
        assert(model::served_at(workflow, replies, store, end + 2));
    }
    assert(model::executed(store, Op::begin()).0.rows("game_lobbies"@) == store.rows(
        "game_lobbies"@,
    ));
}

/// A start that leads to a game leaves the lobby started with that game; lobbies keep distinct
/// identities.
pub proof fn starting_marks_the_lobby(
    lobby: Seq<char>,
    creator: Seq<char>,
    policy: GameCreationPolicy,
    now: Timestamp,
    seed: u64,
    replies: Seq<Reply>,
    store: Store,
    game: GameId,
)
    requires
        exactly_once::unique_text(store.rows("game_lobbies"@), "lobby_id"@),
        model::served(starting(lobby, creator, policy, now, seed), replies, store),
        model::ending(starting(lobby, creator, policy, now, seed), replies) == Outcome::<
            GameId,
            LobbyError,
        >::Done(game),
    ensures
        ({
            let after = model::store_after(
                starting(lobby, creator, policy, now, seed),
                replies,
                store,
            );
            &&& exactly_once::unique_text(after.rows("game_lobbies"@), "lobby_id"@)
            &&& has_started(after, lobby, creator, game)
        }),
{
    let workflow = starting(lobby, creator, policy, now, seed);
    let after = model::store_after(workflow, replies, store);
    let op = lobby_op(lobby);
    let rows = store.rows("game_lobbies"@);
    let hits = model::found(rows, op.filters);
    start_begins(lobby, creator, policy, now, seed, replies, store);
    model::found_rows(rows, op.filters);
    let at = choose|at: int| 0 <= at < rows.len() && rows[at] == hits[0];
    assert(model::meets(hits[0], op.filters[0]));
    assert(model::datum_in(rows[at], "lobby_id"@) == Datum::Text(lobby));
    let shown = replies[1]->Rows_0@[0];
    model::shown_values(shown, rows[at], "creator_user_id"@);
    model::shown_values(shown, rows[at], "status"@);
    model::shown_values(shown, rows[at], "started_game_id"@);
    model::shown_values(shown, rows[at], "revision"@);
    if shown.text_at("status"@) == Some("STARTED"@) {
        assert(after.rows("game_lobbies"@) == rows);
        assert(match shown.column("started_game_id"@) {
            Some(Value::Unsigned(_)) => false,
            Some(value) => value@ == model::datum_in(rows[at], "started_game_id"@),
            None => model::datum_in(rows[at], "started_game_id"@) == Datum::Null,
        });
        assert(started_row(rows[at], creator, game));
    } else {
        start_marks(lobby, creator, policy, now, seed, replies, store, game);
        let now_ms = game::millis_at(now)->0;
        let mark = lobbies::mark_started_op(lobby, shown.integer_at("revision"@)->0, game, now_ms);
        let moved = after.rows("game_lobbies"@);
        assert forall|k: int| 0 <= k < mark.filters.len() implies model::meets(
            rows[at],
            #[trigger] mark.filters[k],
        ) by {
            assert(k == 0 || k == 1 || k == 2);
        }
        mark_sets(rows[at], lobby, shown.integer_at("revision"@)->0, game, now_ms);
        assert(moved[at] == model::assigned(rows[at], mark.values));
        assert forall|i: int, j: int|
            0 <= i < j < moved.len() && (model::datum_in(
                #[trigger] moved[i],
                "lobby_id"@,
            ) is Text) implies model::datum_in(moved[i], "lobby_id"@) != model::datum_in(
            #[trigger] moved[j],
            "lobby_id"@,
        ) by {
            mark_sets(rows[i], lobby, shown.integer_at("revision"@)->0, game, now_ms);
            mark_sets(rows[j], lobby, shown.integer_at("revision"@)->0, game, now_ms);
            assert(model::datum_in(rows[i], "lobby_id"@) != model::datum_in(
                rows[j],
                "lobby_id"@,
            ));
        }
        ids::written_ids_are_read(game);
        assert(started_row(moved[at], creator, game));
    }
}

/// A lobby starts one game: when a start has led to a game, every later start by its creator
/// leads to the same game and writes nothing.
pub proof fn lobbies_start_one_game(
    lobby: Seq<char>,
    creator: Seq<char>,
    policy: GameCreationPolicy,
    now: Timestamp,
    seed: u64,
    replies: Seq<Reply>,
    store: Store,
    game: GameId,
    later_policy: GameCreationPolicy,
    later: Timestamp,
    later_seed: u64,
    later_replies: Seq<Reply>,
)
    requires
        exactly_once::unique_text(store.rows("game_lobbies"@), "lobby_id"@),
        model::served(starting(lobby, creator, policy, now, seed), replies, store),
        model::ending(starting(lobby, creator, policy, now, seed), replies) == Outcome::<
            GameId,
            LobbyError,
        >::Done(game),
        model::served(
            starting(lobby, creator, later_policy, later, later_seed),
            later_replies,
            model::store_after(starting(lobby, creator, policy, now, seed), replies, store),
        ),
        !(model::ending(
            starting(lobby, creator, later_policy, later, later_seed),
            later_replies,
        ) is Wait),
    ensures
        model::ending(
            starting(lobby, creator, later_policy, later, later_seed),
            later_replies,
        ) == Outcome::<GameId, LobbyError>::Done(game),
        model::store_after(
            starting(lobby, creator, later_policy, later, later_seed),
            later_replies,
            model::store_after(starting(lobby, creator, policy, now, seed), replies, store),
        ).tables == model::store_after(
            starting(lobby, creator, policy, now, seed),
            replies,
            store,
        ).tables,
{
    let after = model::store_after(starting(lobby, creator, policy, now, seed), replies, store);
    starting_marks_the_lobby(lobby, creator, policy, now, seed, replies, store, game);
    started_lobbies_yield_their_game(
        lobby,
        creator,
        later_policy,
        later,
        later_seed,
        later_replies,
        after,
        game,
    );
}

/// Joining a lobby through its secret.
pub open spec fn joining(
    secret: Seq<char>,
    user: Seq<char>,
    policy: GameCreationPolicy,
    now: Timestamp,
) -> Workflow<Seq<char>, LobbyError> {
    |trace: Trace| lobbies::join_lobby_run(trace, secret, user, policy, now)
}

/// The request for the open lobby with a secret.
pub open spec fn invitation_op(secret: Seq<char>) -> Op {
    Op::select("game_lobbies"@).where_text(
        "invitation_token_hash"@,
        crypto::token_hash_of(secret),
    ).where_text("status"@, "OPEN"@)
}

/// Whether a stored lobby is open to a secret at a moment, in milliseconds.
pub open spec fn open_to(record: Record, secret: Seq<char>, now_ms: i64) -> bool {
    &&& model::datum_in(record, "invitation_token_hash"@) == Datum::Text(
        crypto::token_hash_of(secret),
    )
    &&& model::datum_in(record, "status"@) == Datum::Text("OPEN"@)
    &&& model::datum_in(record, "invitation_expires_at_ms"@) matches Datum::Integer(expires_ms)
        && expires_ms > now_ms
}

/// The members of a lobby.
pub open spec fn members_of(store: Store, lobby: Seq<char>) -> Seq<Record> {
    model::found(store.rows("game_lobby_members"@), members_op(lobby).filters)
}

/// Where no lobby is open to a secret, whoever has it is turned away and nothing is written.
pub proof fn closed_lobbies_admit_no_one(
    secret: Seq<char>,
    user: Seq<char>,
    policy: GameCreationPolicy,
    now: Timestamp,
    replies: Seq<Reply>,
    store: Store,
)
    requires
        forall|i: int|
            0 <= i < store.rows("game_lobbies"@).len() ==> !(model::datum_in(
                #[trigger] store.rows("game_lobbies"@)[i],
                "invitation_token_hash"@,
            ) == Datum::Text(crypto::token_hash_of(secret)) && model::datum_in(
                store.rows("game_lobbies"@)[i],
                "status"@,
            ) == Datum::Text("OPEN"@)),
        model::served(joining(secret, user, policy, now), replies, store),
        !(model::ending(joining(secret, user, policy, now), replies) is Wait),
    ensures
        model::ending(joining(secret, user, policy, now), replies) == Outcome::<
            Seq<char>,
            LobbyError,
        >::Fail(LobbyError::Unavailable),
        model::store_after(joining(secret, user, policy, now), replies, store).tables
            == store.tables,
{
    let workflow = joining(secret, user, policy, now);
    let op = invitation_op(secret);
    let rows = store.rows("game_lobbies"@);
    let begun = model::executed(store, Op::begin()).0;
    assert(replies =~= replies.take(replies.len() as int));
    assert(model::asked(workflow, replies, 0) == Some(Ask::Store(Op::begin())));
    assert(model::served_at(workflow, replies, store, 0));
    assert(replies.take(1)[0] == replies[0]);
    assert(model::asked(workflow, replies, 1) == Some(Ask::Store(op)));
    assert(model::store_at(workflow, replies, store, 1) == begun);
    assert(begun.rows("game_lobbies"@) == rows);
    assert(model::served_at(workflow, replies, store, 1));
    assert(model::store_at(workflow, replies, store, 2) == begun);
    model::found_rows(rows, op.filters);
    if model::found(rows, op.filters).len() > 0 {
        let i = choose|i: int|
            0 <= i < rows.len() && model::meets_all(#[trigger] rows[i], op.filters);
        assert(model::meets(rows[i], op.filters[0]));
        assert(model::meets(rows[i], op.filters[1]));
    }
    if replies.len() > 2 {
        assert(replies.take(2)[0] == replies[0]);
        assert(replies.take(2)[1] == replies[1]);
        assert(model::served_at(workflow, replies, store, 2));
    }
}

/// Whoever is not among the listed members is none of them.
proof fn no_member(members: Seq<(Seq<char>, usize)>, user: Seq<char>)
    requires
        lobbies::member_index(members, user) is None,
    ensures
        forall|i: int| 0 <= i < members.len() ==> (#[trigger] members[i]).0 != user,
    decreases members.len(),
{
    if members.len() > 0 {
        no_member(members.skip(1), user);
        assert forall|i: int| 0 <= i < members.len() implies (#[trigger] members[i]).0 != user by {
            if i > 0 {
                assert(members.skip(1)[i - 1] == members[i]);
            }
        }
    }
}

/// What a successful join has read.
proof fn join_reads(
    secret: Seq<char>,
    user: Seq<char>,
    policy: GameCreationPolicy,
    now: Timestamp,
    replies: Seq<Reply>,
    store: Store,
    lobby: Seq<char>,
)
    requires
        model::served(joining(secret, user, policy, now), replies, store),
        model::ending(joining(secret, user, policy, now), replies) == Outcome::<
            Seq<char>,
            LobbyError,
        >::Done(lobby),
    ensures
        ({
            let workflow = joining(secret, user, policy, now);
            let hits = model::found(
                store.rows("game_lobbies"@),
                invitation_op(secret).filters,
            );
            let row = replies[1]->Rows_0@[0];
            let now_ms = game::millis_at(now);
            &&& replies.len() > 4
            &&& replies[0] is Rows
            &&& replies[1] is Rows
            &&& replies[2] is Rows
            &&& hits.len() > 0
            &&& model::shows(row, hits[0])
            &&& row.text_at("lobby_id"@) == Some(lobby)
            &&& now_ms is Some
            &&& row.integer_at("invitation_expires_at_ms"@) matches Some(expires_ms) && expires_ms
                > now_ms->0
            &&& model::all_shown(
                replies[2]->Rows_0@,
                model::sorted(
                    members_of(store, lobby),
                    Some(("seat"@, Direction::Ascending)),
                ),
            )
            &&& model::asked(workflow, replies, 3) == Some(
                Ask::Store(
                    lobbies::insert_member_op(
                        lobby,
                        user,
                        replies[2]->Rows_0@.len() as int,
                        now_ms->0,
                    ),
                ),
            )
            &&& model::store_at(workflow, replies, store, 3) == model::executed(
                store,
                Op::begin(),
            ).0
        }),
{
    let workflow = joining(secret, user, policy, now);
    let begun = model::executed(store, Op::begin()).0;
    assert(replies =~= replies.take(replies.len() as int));
    assert(model::asked(workflow, replies, 0) == Some(Ask::Store(Op::begin())));
    assert(model::served_at(workflow, replies, store, 0));
    assert(replies.take(1)[0] == replies[0]);
    assert(model::asked(workflow, replies, 1) == Some(Ask::Store(invitation_op(secret))));
    assert(model::store_at(workflow, replies, store, 1) == begun);
    assert(begun.rows("game_lobbies"@) == store.rows("game_lobbies"@));
    assert(model::served_at(workflow, replies, store, 1));
    assert(model::store_at(workflow, replies, store, 2) == begun);
    assert(replies.len() > 2);
    assert(replies.take(2)[0] == replies[0]);
    assert(replies.take(2)[1] == replies[1]);
    let row = replies[1]->Rows_0@[0];
    assert(row.text_at("lobby_id"@) is Some);
    let read = row.text_at("lobby_id"@)->0;
    assert(model::asked(workflow, replies, 2) == Some(Ask::Store(members_op(read))));
    assert(model::served_at(workflow, replies, store, 2));
    assert(begun.rows("game_lobby_members"@) == store.rows("game_lobby_members"@));
    assert(model::store_at(workflow, replies, store, 3) == begun);
    assert(replies.len() > 3);
    assert(replies.take(3)[0] == replies[0]);
    assert(replies.take(3)[1] == replies[1]);
    assert(replies.take(3)[2] == replies[2]);
}

/// Whoever is let into a lobby came with the secret of an open lobby in time, found a free seat,
/// and was no member.
pub proof fn admitted_users_had_a_free_seat(
    secret: Seq<char>,
    user: Seq<char>,
    policy: GameCreationPolicy,
    now: Timestamp,
    replies: Seq<Reply>,
    store: Store,
    lobby: Seq<char>,
)
    requires
        model::served(joining(secret, user, policy, now), replies, store),
        model::ending(joining(secret, user, policy, now), replies) == Outcome::<
            Seq<char>,
            LobbyError,
        >::Done(lobby),
    ensures
        ({
            let rows = store.rows("game_lobbies"@);
            &&& game::millis_at(now) is Some
            &&& exists|i: int|
                0 <= i < rows.len() && open_to(#[trigger] rows[i], secret, game::millis_at(now)->0)
                    && model::datum_in(rows[i], "lobby_id"@) == Datum::Text(lobby) && (
                model::datum_in(rows[i], "max_players"@) matches Datum::Integer(room)
                    && members_of(store, lobby).len() < room)
            &&& forall|i: int|
                0 <= i < members_of(store, lobby).len() ==> model::datum_in(
                    #[trigger] members_of(store, lobby)[i],
                    "user_id"@,
                ) != Datum::Text(user)
        }),
{
    let rows = store.rows("game_lobbies"@);
    let op = invitation_op(secret);
    let hits = model::found(rows, op.filters);
    join_reads(secret, user, policy, now, replies, store, lobby);
    model::found_rows(rows, op.filters);
    let row = replies[1]->Rows_0@[0];
    let at = choose|at: int| 0 <= at < rows.len() && rows[at] == hits[0];
    assert(model::meets(hits[0], op.filters[0]));
    assert(model::meets(hits[0], op.filters[1]));
    model::shown_values(row, hits[0], "lobby_id"@);
    model::shown_values(row, hits[0], "invitation_expires_at_ms"@);
    model::shown_values(row, hits[0], "max_players"@);
    let members = members_of(store, lobby);
    let order = model::sorted(members, Some(("seat"@, Direction::Ascending)));
    let before = |left: Record, right: Record|
        model::sorts_before(left, right, "seat"@, Direction::Ascending);
    crate::order::arranged_keeps_elements(members, before);
    let listed = replies[2]->Rows_0@;
    let users = Seq::new(listed.len(), |i: int| lobbies::member_row(listed[i])->0);
    assert(lobbies::members_well_formed(listed));
    assert(lobbies::member_index(users, user) is None);
    no_member(users, user);
    assert(order.len() == members.len());
    assert(open_to(rows[at], secret, game::millis_at(now)->0));
    assert forall|i: int| 0 <= i < members.len() implies model::datum_in(
        #[trigger] members[i],
        "user_id"@,
    ) != Datum::Text(user) by {
        assert(members.contains(members[i]));
        crate::order::arranged_contains(members, before, members[i]);
        let k = choose|k: int| 0 <= k < order.len() && order[k] == members[i];
        model::shown_values(listed[k], order[k], "user_id"@);
        assert(lobbies::member_row(listed[k]) is Some);
        assert(users[k].0 != user);
    }
}

/// Leaving a lobby.
pub open spec fn leaving(lobby: Seq<char>, user: Seq<char>, now: Timestamp) -> Workflow<
    (),
    LobbyError,
> {
    |trace: Trace| lobbies::leave_lobby_run(trace, lobby, user, now)
}

/// Whether a row is of a member of a lobby.
pub open spec fn in_lobby(record: Record, lobby: Seq<char>) -> bool {
    model::datum_in(record, "lobby_id"@) == Datum::Text(lobby)
}

/// Whether a row is of a user.
pub open spec fn of_user(record: Record, user: Seq<char>) -> bool {
    model::datum_in(record, "user_id"@) == Datum::Text(user)
}

/// Whether no two members of a lobby are the same user.
pub open spec fn distinct_members(rows: Seq<Record>, lobby: Seq<char>) -> bool {
    forall|i: int, j: int|
        0 <= i < j < rows.len() && in_lobby(#[trigger] rows[i], lobby) && in_lobby(
            #[trigger] rows[j],
            lobby,
        ) ==> model::datum_in(rows[i], "user_id"@) != model::datum_in(rows[j], "user_id"@)
}

/// The request that removes a member.
pub open spec fn removal_op(lobby: Seq<char>, user: Seq<char>) -> Op {
    Op::delete("game_lobby_members"@).where_text("lobby_id"@, lobby).where_text("user_id"@, user)
}

/// The members who remain in a lobby when a user has left, in seat order.
pub open spec fn remaining_members(store: Store, lobby: Seq<char>, user: Seq<char>) -> Seq<
    Record,
> {
    let rows = model::left(store.rows("game_lobby_members"@), removal_op(lobby, user).filters);
    model::sorted(
        model::found(rows, members_op(lobby).filters),
        Some(("seat"@, Direction::Ascending)),
    )
}

/// What remains is among what was, does not meet the filters, and keeps members distinct.
proof fn left_rows(
    rows: Seq<Record>,
    filters: Seq<(Seq<char>, Relation, Datum)>,
    lobby: Seq<char>,
)
    ensures
        forall|i: int|
            0 <= i < model::left(rows, filters).len() ==> !model::meets_all(
                #[trigger] model::left(rows, filters)[i],
                filters,
            ) && rows.contains(model::left(rows, filters)[i]),
        distinct_members(rows, lobby) ==> distinct_members(model::left(rows, filters), lobby),
    decreases rows.len(),
{
    if rows.len() > 0 {
        let less = rows.drop_last();
        left_rows(less, filters, lobby);
        let kept = model::left(rows, filters);
        let before = model::left(less, filters);
        assert forall|i: int| 0 <= i < kept.len() implies !model::meets_all(
            #[trigger] kept[i],
            filters,
        ) && rows.contains(kept[i]) by {
            if i < before.len() {
                assert(kept[i] == before[i]);
                let at = choose|at: int| 0 <= at < less.len() && less[at] == before[i];
                assert(rows[at] == before[i]);
            } else {
                assert(rows[rows.len() - 1] == kept[i]);
            }
        }
        if distinct_members(rows, lobby) {
            assert forall|i: int, j: int|
                0 <= i < j < less.len() && in_lobby(#[trigger] less[i], lobby) && in_lobby(
                    #[trigger] less[j],
                    lobby,
                ) implies model::datum_in(less[i], "user_id"@) != model::datum_in(
                less[j],
                "user_id"@,
            ) by {
                assert(in_lobby(rows[i], lobby) && in_lobby(rows[j], lobby));
            }
            assert forall|i: int, j: int|
                0 <= i < j < kept.len() && in_lobby(#[trigger] kept[i], lobby) && in_lobby(
                    #[trigger] kept[j],
                    lobby,
                ) implies model::datum_in(kept[i], "user_id"@) != model::datum_in(
                kept[j],
                "user_id"@,
            ) by {
                assert(kept[i] == before[i]);
                if j < before.len() {
                    assert(in_lobby(before[i], lobby) && in_lobby(before[j], lobby));
                } else {
                    let at = choose|at: int| 0 <= at < less.len() && less[at] == before[i];
                    assert(in_lobby(rows[at], lobby));
                    assert(in_lobby(rows[rows.len() - 1], lobby));
                }
            }
        }
    }
}

/// Finding keeps members distinct.
proof fn found_stay_distinct(
    rows: Seq<Record>,
    filters: Seq<(Seq<char>, Relation, Datum)>,
    lobby: Seq<char>,
)
    requires
        distinct_members(rows, lobby),
    ensures
        distinct_members(model::found(rows, filters), lobby),
    decreases rows.len(),
{
    if rows.len() > 0 {
        let less = rows.drop_last();
        assert forall|i: int, j: int|
            0 <= i < j < less.len() && in_lobby(#[trigger] less[i], lobby) && in_lobby(
                #[trigger] less[j],
                lobby,
            ) implies model::datum_in(less[i], "user_id"@) != model::datum_in(
            less[j],
            "user_id"@,
        ) by {
            assert(in_lobby(rows[i], lobby) && in_lobby(rows[j], lobby));
        }
        found_stay_distinct(less, filters, lobby);
        model::found_rows(less, filters);
        let hits = model::found(rows, filters);
        let before = model::found(less, filters);
        assert forall|i: int, j: int|
            0 <= i < j < hits.len() && in_lobby(#[trigger] hits[i], lobby) && in_lobby(
                #[trigger] hits[j],
                lobby,
            ) implies model::datum_in(hits[i], "user_id"@) != model::datum_in(
            hits[j],
            "user_id"@,
        ) by {
            assert(hits[i] == before[i]);
            if j < before.len() {
                assert(in_lobby(before[i], lobby) && in_lobby(before[j], lobby));
            } else {
                let at = choose|at: int| 0 <= at < less.len() && less[at] == before[i];
                assert(in_lobby(rows[at], lobby));
                assert(in_lobby(rows[rows.len() - 1], lobby));
            }
        }
    }
}

/// Sorting keeps members distinct.
proof fn arranged_stay_distinct(
    rows: Seq<Record>,
    before: spec_fn(Record, Record) -> bool,
    lobby: Seq<char>,
)
    requires
        distinct_members(rows, lobby),
    ensures
        distinct_members(crate::order::arranged(rows, before), lobby),
    decreases rows.len(),
{
    if rows.len() > 0 {
        let less = rows.drop_last();
        assert forall|i: int, j: int|
            0 <= i < j < less.len() && in_lobby(#[trigger] less[i], lobby) && in_lobby(
                #[trigger] less[j],
                lobby,
            ) implies model::datum_in(less[i], "user_id"@) != model::datum_in(
            less[j],
            "user_id"@,
        ) by {
            assert(in_lobby(rows[i], lobby) && in_lobby(rows[j], lobby));
        }
        arranged_stay_distinct(less, before, lobby);
        let sorted = crate::order::arranged(less, before);
        crate::order::slot_bounds(sorted, rows.last(), before);
        let place = crate::order::slot(sorted, rows.last(), before);
        let all = crate::order::arranged(rows, before);
        assert forall|i: int| 0 <= i < sorted.len() && in_lobby(
            #[trigger] sorted[i],
            lobby,
        ) && in_lobby(rows.last(), lobby) implies model::datum_in(sorted[i], "user_id"@)
            != model::datum_in(rows.last(), "user_id"@) by {
            crate::order::arranged_contains(less, before, sorted[i]);
            assert(sorted.contains(sorted[i]));
            let at = choose|at: int| 0 <= at < less.len() && less[at] == sorted[i];
            assert(in_lobby(rows[at], lobby));
            assert(in_lobby(rows[rows.len() - 1], lobby));
        }
        assert forall|i: int, j: int|
            0 <= i < j < all.len() && in_lobby(#[trigger] all[i], lobby) && in_lobby(
                #[trigger] all[j],
                lobby,
            ) implies model::datum_in(all[i], "user_id"@) != model::datum_in(
            all[j],
            "user_id"@,
        ) by {
            if i < place {
                assert(all[i] == sorted[i]);
                if j < place {
                    assert(all[j] == sorted[j]);
                } else if j > place {
                    assert(all[j] == sorted[j - 1]);
                }
            } else if i == place {
                assert(all[j] == sorted[j - 1]);
            } else {
                assert(all[i] == sorted[i - 1]);
                assert(all[j] == sorted[j - 1]);
            }
        }
    }
}

/// Moving members reads its replies in order.
pub proof fn moving_is_steady(
    replies: Seq<Reply>,
    at: int,
    count: int,
    lobby: Seq<char>,
    members: Seq<(Seq<char>, usize)>,
    aside: bool,
    index: int,
)
    requires
        0 <= at,
        0 <= count <= replies.len(),
    ensures
        steady::steady(
            lobbies::move_members_run(Trace { replies, at }, lobby, members, aside, index),
            lobbies::move_members_run(
                Trace { replies: replies.take(count), at },
                lobby,
                members,
                aside,
                index,
            ),
            replies,
            at,
            count,
        ),
    decreases members.len() - index,
{
    if index < members.len() {
        if at < count {
            assert(replies.take(count)[at] == replies[at]);
        }
        moving_is_steady(replies, at + 1, count, lobby, members, aside, index + 1);
    }
}

/// What a pass asks for at the member `wanted`.
proof fn moving_asks(
    replies: Seq<Reply>,
    at: int,
    lobby: Seq<char>,
    members: Seq<(Seq<char>, usize)>,
    aside: bool,
    index: int,
    wanted: int,
)
    requires
        0 <= at,
        0 <= index <= wanted < members.len(),
        lobbies::move_members_run(
            Trace { replies, at },
            lobby,
            members,
            aside,
            index,
        ).outcome is Done,
    ensures
        at + wanted - index < replies.len(),
        lobbies::move_members_run(
            Trace { replies: replies.take(at + wanted - index), at },
            lobby,
            members,
            aside,
            index,
        ).outcome == Outcome::<(), LobbyError>::Wait(
            Ask::Store(
                lobbies::move_member_op(
                    lobby,
                    members[wanted].0,
                    lobbies::seat_in_pass(wanted, aside),
                ),
            ),
        ),
    decreases wanted - index,
{
    let place = at + wanted - index;
    if index < wanted {
        moving_asks(replies, at + 1, lobby, members, aside, index + 1, wanted);
        assert(replies.take(place)[at] == replies[at]);
    }
}

/// Where a pass ends.
proof fn moving_ends(
    replies: Seq<Reply>,
    at: int,
    lobby: Seq<char>,
    members: Seq<(Seq<char>, usize)>,
    aside: bool,
    index: int,
)
    requires
        0 <= at,
        0 <= index <= members.len(),
        lobbies::move_members_run(
            Trace { replies, at },
            lobby,
            members,
            aside,
            index,
        ).outcome is Done,
    ensures
        lobbies::move_members_run(Trace { replies, at }, lobby, members, aside, index).trace == (
        Trace { replies, at: at + members.len() - index }),
    decreases members.len() - index,
{
    if index < members.len() {
        moving_ends(replies, at + 1, lobby, members, aside, index + 1);
    }
}

/// What one pass over the first `count` members has made of the rows: other lobbies' rows are as
/// they were, every row is of whom it was of, and those members sit where the pass puts them.
pub open spec fn seated(
    rows: Seq<Record>,
    before: Seq<Record>,
    lobby: Seq<char>,
    members: Seq<(Seq<char>, usize)>,
    aside: bool,
    count: int,
) -> bool {
    &&& rows.len() == before.len()
    &&& forall|r: int|
        0 <= r < rows.len() ==> model::datum_in(#[trigger] rows[r], "lobby_id"@)
            == model::datum_in(before[r], "lobby_id"@) && model::datum_in(rows[r], "user_id"@)
            == model::datum_in(before[r], "user_id"@)
    &&& forall|r: int|
        0 <= r < rows.len() && !in_lobby(#[trigger] rows[r], lobby) ==> rows[r] == before[r]
    &&& forall|r: int, k: int|
        0 <= r < rows.len() && 0 <= k < count && in_lobby(#[trigger] rows[r], lobby) && of_user(
            rows[r],
            (#[trigger] members[k]).0,
        ) ==> model::datum_in(rows[r], "seat"@) == Datum::Integer(
            lobbies::seat_in_pass(k, aside),
        )
}

/// One move of a pass.
proof fn one_more_is_seated(
    rows: Seq<Record>,
    before: Seq<Record>,
    lobby: Seq<char>,
    members: Seq<(Seq<char>, usize)>,
    aside: bool,
    count: int,
)
    requires
        0 <= count < members.len(),
        seated(rows, before, lobby, members, aside, count),
        forall|i: int, j: int|
            0 <= i < j < members.len() ==> (#[trigger] members[i]).0 != (#[trigger] members[j]).0,
    ensures
        ({
            let op = lobbies::move_member_op(
                lobby,
                members[count].0,
                lobbies::seat_in_pass(count, aside),
            );
            seated(
                model::updated(rows, op.filters, op.values),
                before,
                lobby,
                members,
                aside,
                count + 1,
            )
        }),
{
    let op = lobbies::move_member_op(
        lobby,
        members[count].0,
        lobbies::seat_in_pass(count, aside),
    );
    let after = model::updated(rows, op.filters, op.values);
    reveal_strlit("lobby_id");
    reveal_strlit("user_id");
    reveal_strlit("seat");
    assert("lobby_id"@.len() == 8);
    assert("user_id"@.len() == 7);
    assert("seat"@.len() == 4);
    assert forall|r: int| 0 <= r < rows.len() implies model::datum_in(
        #[trigger] after[r],
        "lobby_id"@,
    ) == model::datum_in(rows[r], "lobby_id"@) && model::datum_in(after[r], "user_id"@)
        == model::datum_in(rows[r], "user_id"@) && (model::meets_all(rows[r], op.filters)
        <==> in_lobby(rows[r], lobby) && of_user(rows[r], members[count].0)) && (
    model::meets_all(rows[r], op.filters) ==> model::datum_in(after[r], "seat"@)
        == Datum::Integer(lobbies::seat_in_pass(count, aside))) by {
        model::assigned_keeps(rows[r], op.values, "lobby_id"@);
        model::assigned_keeps(rows[r], op.values, "user_id"@);
        model::assigned_sets(rows[r], op.values, 0);
        if model::meets_all(rows[r], op.filters) {
            assert(model::meets(rows[r], op.filters[0]));
            assert(model::meets(rows[r], op.filters[1]));
        }
        if in_lobby(rows[r], lobby) && of_user(rows[r], members[count].0) {
            assert forall|k: int| 0 <= k < op.filters.len() implies model::meets(
                rows[r],
                #[trigger] op.filters[k],
            ) by {
                assert(k == 0 || k == 1);
            }
        }
    }
    assert forall|r: int, k: int|
        0 <= r < after.len() && 0 <= k < count + 1 && in_lobby(#[trigger] after[r], lobby)
            && of_user(after[r], (#[trigger] members[k]).0) implies model::datum_in(
        after[r],
        "seat"@,
    ) == Datum::Integer(lobbies::seat_in_pass(k, aside)) by {
        assert(in_lobby(rows[r], lobby) && of_user(rows[r], members[k].0));
        if k < count {
            assert(members[k].0 != members[count].0);
            assert(after[r] == rows[r]);
        }
    }
    assert forall|r: int| 0 <= r < after.len() && !in_lobby(
        #[trigger] after[r],
        lobby,
    ) implies after[r] == before[r] by {
        assert(!in_lobby(rows[r], lobby));
    }
}

/// The members that a leave has listed in its fourth reply.
pub open spec fn listed_members(replies: Seq<Reply>) -> Seq<(Seq<char>, usize)> {
    let rows = replies[3]->Rows_0@;
    Seq::new(rows.len(), |i: int| lobbies::member_row(rows[i])->0)
}

/// The two passes of a leave and what follows them.
pub open spec fn passes_run(
    trace: Trace,
    lobby: Seq<char>,
    members: Seq<(Seq<char>, usize)>,
    row: Row,
    now: Timestamp,
) -> Run<(), LobbyError> {
    script::chain(
        lobbies::move_members_run(trace, lobby, members, true, 0),
        |moved: (), trace: Trace|
            script::chain(
                lobbies::move_members_run(trace, lobby, members, false, 0),
                |moved: (), trace: Trace|
                    lobbies::advance_run(
                        trace,
                        Op::update("game_lobbies"@),
                        lobby,
                        row,
                        now,
                        (),
                    ),
            ),
    )
}

/// What a successful leave has read and done before its passes.
proof fn leave_begins(
    lobby: Seq<char>,
    user: Seq<char>,
    now: Timestamp,
    replies: Seq<Reply>,
    store: Store,
)
    requires
        model::served(leaving(lobby, user, now), replies, store),
        model::ending(leaving(lobby, user, now), replies) is Done,
    ensures
        ({
            let workflow = leaving(lobby, user, now);
            let rows = store.rows("game_lobby_members"@);
            &&& replies.len() > 3
            &&& replies[1] is Rows
            &&& replies[3] is Rows
            &&& lobbies::members_well_formed(replies[3]->Rows_0@)
            &&& model::all_shown(replies[3]->Rows_0@, remaining_members(store, lobby, user))
            &&& model::store_at(workflow, replies, store, 4).rows("game_lobby_members"@)
                == model::left(rows, removal_op(lobby, user).filters)
            &&& forall|count: int|
                4 <= count <= replies.len() ==> #[trigger] workflow(
                    Trace { replies: replies.take(count), at: 0 },
                ) == passes_run(
                    Trace { replies: replies.take(count), at: 4 },
                    lobby,
                    listed_members(replies),
                    replies[1]->Rows_0@[0],
                    now,
                )
        }),
{
    let workflow = leaving(lobby, user, now);
    let begun = model::executed(store, Op::begin()).0;
    let lookup = Op::select("game_lobbies"@).where_text("lobby_id"@, lobby).where_text(
        "status"@,
        "OPEN"@,
    );
    assert(replies =~= replies.take(replies.len() as int));
    assert(model::asked(workflow, replies, 0) == Some(Ask::Store(Op::begin())));
    assert(model::served_at(workflow, replies, store, 0));
    assert(replies.take(1)[0] == replies[0]);
    assert(model::asked(workflow, replies, 1) == Some(Ask::Store(lookup)));
    assert(model::store_at(workflow, replies, store, 1) == begun);
    assert(model::served_at(workflow, replies, store, 1));
    assert(model::store_at(workflow, replies, store, 2) == begun);
    assert(replies.len() > 2);
    assert(replies.take(2)[0] == replies[0]);
    assert(replies.take(2)[1] == replies[1]);
    let removal = removal_op(lobby, user);
    assert(model::asked(workflow, replies, 2) == Some(Ask::Store(removal)));
    assert(model::served_at(workflow, replies, store, 2));
    let removed = model::executed(begun, removal).0;
    assert(model::store_at(workflow, replies, store, 3) == removed);
    assert(begun.rows("game_lobby_members"@) == store.rows("game_lobby_members"@));
    assert(replies.len() > 3);
    assert(replies.take(3)[0] == replies[0]);
    assert(replies.take(3)[1] == replies[1]);
    assert(replies.take(3)[2] == replies[2]);
    assert(model::asked(workflow, replies, 3) == Some(Ask::Store(members_op(lobby))));
    assert(model::served_at(workflow, replies, store, 3));
    assert(model::store_at(workflow, replies, store, 4) == removed);
    assert forall|count: int| 4 <= count <= replies.len() implies #[trigger] workflow(
        Trace { replies: replies.take(count), at: 0 },
    ) == passes_run(
        Trace { replies: replies.take(count), at: 4 },
        lobby,
        listed_members(replies),
        replies[1]->Rows_0@[0],
        now,
    ) by {
        let cut = replies.take(count);
        assert(cut[0] == replies[0]);
        assert(cut[1] == replies[1]);
        assert(cut[2] == replies[2]);
        assert(cut[3] == replies[3]);
    }
}

/// What a leave asks for in its passes and behind them.
proof fn passes_ask(
    lobby: Seq<char>,
    user: Seq<char>,
    now: Timestamp,
    replies: Seq<Reply>,
    store: Store,
)
    requires
        model::served(leaving(lobby, user, now), replies, store),
        model::ending(leaving(lobby, user, now), replies) is Done,
    ensures
        ({
            let workflow = leaving(lobby, user, now);
            let members = listed_members(replies);
            let count = members.len() as int;
            &&& replies.len() > 4 + 2 * count + 1
            &&& forall|k: int|
                #![trigger members[k]]
                0 <= k < count ==> model::asked(workflow, replies, 4 + k) == Some(
                    Ask::Store(
                        lobbies::move_member_op(
                            lobby,
                            members[k].0,
                            lobbies::seat_in_pass(k, true),
                        ),
                    ),
                ) && model::asked(workflow, replies, 4 + count + k) == Some(
                    Ask::Store(
                        lobbies::move_member_op(
                            lobby,
                            members[k].0,
                            lobbies::seat_in_pass(k, false),
                        ),
                    ),
                )
            &&& model::asked(workflow, replies, 4 + 2 * count) matches Some(Ask::Store(op))
                && op.table == "game_lobbies"@ && op.verb == Verb::Update
            &&& model::asked(workflow, replies, 4 + 2 * count + 1) == Some(
                Ask::Store(Op::commit()),
            )
            &&& replies.len() == 4 + 2 * count + 2
        }),
{
    let workflow = leaving(lobby, user, now);
    let members = listed_members(replies);
    let count = members.len() as int;
    let row = replies[1]->Rows_0@[0];
    leave_begins(lobby, user, now, replies, store);
    let full = replies.len() as int;
    assert(replies.take(full) =~= replies);
    assert(workflow(Trace { replies: replies.take(full), at: 0 }) == passes_run(
        Trace { replies, at: 4 },
        lobby,
        members,
        row,
        now,
    ));
    moving_ends(replies, 4, lobby, members, true, 0);
    moving_ends(replies, 4 + count, lobby, members, false, 0);
    assert forall|k: int| #![trigger members[k]] 0 <= k < count implies model::asked(
        workflow,
        replies,
        4 + k,
    ) == Some(
        Ask::Store(
            lobbies::move_member_op(lobby, members[k].0, lobbies::seat_in_pass(k, true)),
        ),
    ) && model::asked(workflow, replies, 4 + count + k) == Some(
        Ask::Store(
            lobbies::move_member_op(lobby, members[k].0, lobbies::seat_in_pass(k, false)),
        ),
    ) by {
        moving_asks(replies, 4, lobby, members, true, 0, k);
        moving_asks(replies, 4 + count, lobby, members, false, 0, k);
        moving_is_steady(replies, 4, 4 + count + k, lobby, members, true, 0);
        assert(workflow(Trace { replies: replies.take(4 + k), at: 0 }) == passes_run(
            Trace { replies: replies.take(4 + k), at: 4 },
            lobby,
            members,
            row,
            now,
        ));
        assert(workflow(Trace { replies: replies.take(4 + count + k), at: 0 }) == passes_run(
            Trace { replies: replies.take(4 + count + k), at: 4 },
            lobby,
            members,
            row,
            now,
        ));
    }
    let end = 4 + 2 * count;
    assert(end + 1 < replies.len());
    passes_end_at(replies, end, lobby, members, row, now);
    passes_end_at(replies, end + 1, lobby, members, row, now);
    assert(replies.take(end + 1)[end] == replies[end]);
    assert(workflow(Trace { replies: replies.take(end), at: 0 }).outcome is Wait);
    assert(model::served_at(workflow, replies, store, end));
    assert(workflow(Trace { replies: replies.take(end + 1), at: 0 }).outcome is Wait);
    if replies.len() > end + 2 {
        passes_end_at(replies, end + 2, lobby, members, row, now);
        assert(replies.take(end + 2)[end] == replies[end]);
        assert(replies.take(end + 2)[end + 1] == replies[end + 1]);
        assert(model::served_at(workflow, replies, store, end + 1));
        assert(model::served_at(workflow, replies, store, end + 2));
        assert(!(workflow(Trace { replies: replies.take(end + 2), at: 0 }).outcome is Wait));
    }
}

/// Behind its passes a leave advances its lobby.
proof fn passes_end_at(
    replies: Seq<Reply>,
    place: int,
    lobby: Seq<char>,
    members: Seq<(Seq<char>, usize)>,
    row: Row,
    now: Timestamp,
)
    requires
        4 + 2 * members.len() <= place <= replies.len(),
        lobbies::move_members_run(
            Trace { replies, at: 4 },
            lobby,
            members,
            true,
            0,
        ).outcome is Done,
        lobbies::move_members_run(
            Trace { replies, at: 4 + members.len() as int },
            lobby,
            members,
            false,
            0,
        ).outcome is Done,
    ensures
        passes_run(Trace { replies: replies.take(place), at: 4 }, lobby, members, row, now)
            == lobbies::advance_run(
            Trace { replies: replies.take(place), at: 4 + 2 * (members.len() as int) },
            Op::update("game_lobbies"@),
            lobby,
            row,
            now,
            (),
        ),
{
    let count = members.len() as int;
    moving_ends(replies, 4, lobby, members, true, 0);
    moving_ends(replies, 4 + count, lobby, members, false, 0);
    moving_is_steady(replies, 4, place, lobby, members, true, 0);
    moving_is_steady(replies, 4 + count, place, lobby, members, false, 0);
}

/// The rows while a pass that begins at `start` has moved `count` members.
proof fn pass_seats(
    lobby: Seq<char>,
    user: Seq<char>,
    now: Timestamp,
    replies: Seq<Reply>,
    store: Store,
    aside: bool,
    count: int,
)
    requires
        model::served(leaving(lobby, user, now), replies, store),
        model::ending(leaving(lobby, user, now), replies) is Done,
        0 <= count <= listed_members(replies).len(),
        forall|i: int, j: int|
            0 <= i < j < listed_members(replies).len() ==> (
            #[trigger] listed_members(replies)[i]).0 != (#[trigger] listed_members(replies)[j]).0,
    ensures
        ({
            let workflow = leaving(lobby, user, now);
            let members = listed_members(replies);
            let start = if aside {
                4
            } else {
                4 + members.len()
            };
            seated(
                model::store_at(workflow, replies, store, start + count).rows(
                    "game_lobby_members"@,
                ),
                model::store_at(workflow, replies, store, start as int).rows(
                    "game_lobby_members"@,
                ),
                lobby,
                members,
                aside,
                count,
            )
        }),
    decreases count,
{
    let workflow = leaving(lobby, user, now);
    let members = listed_members(replies);
    let start: int = if aside {
        4
    } else {
        4 + members.len() as int
    };
    if count > 0 {
        let last = count - 1;
        pass_seats(lobby, user, now, replies, store, aside, last);
        passes_ask(lobby, user, now, replies, store);
        let moved = members[last];
        let before = model::store_at(workflow, replies, store, start + last);
        let op = lobbies::move_member_op(
            lobby,
            members[last].0,
            lobbies::seat_in_pass(last, aside),
        );
        assert(model::asked(workflow, replies, start + last) == Some(Ask::Store(op)));
        assert(model::store_at(workflow, replies, store, start + count) == model::executed(
            before,
            op,
        ).0);
        one_more_is_seated(
            before.rows("game_lobby_members"@),
            model::store_at(workflow, replies, store, start).rows("game_lobby_members"@),
            lobby,
            members,
            aside,
            last,
        );
    }
}

/// Leaving a lobby closes the gap: the user is gone, the members who remain sit on consecutive
/// seats from zero in the order in which they sat, and members of other lobbies are not touched.
pub proof fn leaving_closes_the_gap(
    lobby: Seq<char>,
    user: Seq<char>,
    now: Timestamp,
    replies: Seq<Reply>,
    store: Store,
)
    requires
        distinct_members(store.rows("game_lobby_members"@), lobby),
        model::served(leaving(lobby, user, now), replies, store),
        model::ending(leaving(lobby, user, now), replies) is Done,
    ensures
        ({
            let after = model::store_after(leaving(lobby, user, now), replies, store).rows(
                "game_lobby_members"@,
            );
            let kept = model::left(
                store.rows("game_lobby_members"@),
                removal_op(lobby, user).filters,
            );
            let order = remaining_members(store, lobby, user);
            &&& after.len() == kept.len()
            &&& forall|r: int|
                0 <= r < after.len() && !in_lobby(#[trigger] kept[r], lobby) ==> after[r]
                    == kept[r]
            &&& forall|r: int|
                0 <= r < after.len() && in_lobby(#[trigger] after[r], lobby) ==> !of_user(
                    after[r],
                    user,
                )
            &&& forall|r: int, k: int|
                0 <= r < after.len() && 0 <= k < order.len() && in_lobby(
                    #[trigger] after[r],
                    lobby,
                ) && model::datum_in(after[r], "user_id"@) == model::datum_in(
                    #[trigger] order[k],
                    "user_id"@,
                ) ==> model::datum_in(after[r], "seat"@) == Datum::Integer(k)
        }),
{
    let workflow = leaving(lobby, user, now);
    let rows = store.rows("game_lobby_members"@);
    let removal = removal_op(lobby, user);
    let kept = model::left(rows, removal.filters);
    let members = listed_members(replies);
    let count = members.len() as int;
    let order = remaining_members(store, lobby, user);
    leave_begins(lobby, user, now, replies, store);
    passes_ask(lobby, user, now, replies, store);
    left_rows(rows, removal.filters, lobby);
    found_stay_distinct(kept, members_op(lobby).filters, lobby);
    let hits = model::found(kept, members_op(lobby).filters);
    model::found_rows(kept, members_op(lobby).filters);
    let before = |left: Record, right: Record|
        model::sorts_before(left, right, "seat"@, Direction::Ascending);
    arranged_stay_distinct(hits, before, lobby);
    let listed = replies[3]->Rows_0@;
    assert forall|k: int| 0 <= k < count implies in_lobby(order[k], lobby) && model::datum_in(
        order[k],
        "user_id"@,
    ) == Datum::Text((#[trigger] members[k]).0) by {
        crate::order::arranged_contains(hits, before, order[k]);
        assert(order.contains(order[k]));
        let i = choose|i: int| 0 <= i < hits.len() && hits[i] == order[k];
        assert(model::meets(hits[i], members_op(lobby).filters[0]));
        model::shown_values(listed[k], order[k], "user_id"@);
        assert(lobbies::member_row(listed[k]) is Some);
    }
    assert forall|i: int, j: int| 0 <= i < j < count implies (#[trigger] members[i]).0 != (
    #[trigger] members[j]).0 by {
        let (left, right) = (members[i], members[j]);
        assert(in_lobby(order[i], lobby) && in_lobby(order[j], lobby));
    }
    pass_seats(lobby, user, now, replies, store, true, count);
    pass_seats(lobby, user, now, replies, store, false, count);
    let first = model::store_at(workflow, replies, store, 4 + count);
    let second = model::store_at(workflow, replies, store, 4 + 2 * count);
    reveal_strlit("game_lobbies");
    reveal_strlit("game_lobby_members");
    assert("game_lobbies"@.len() == 12);
    assert("game_lobby_members"@.len() == 18);
    let advanced = model::store_at(workflow, replies, store, 4 + 2 * count + 1);
    assert(advanced.rows("game_lobby_members"@) == second.rows("game_lobby_members"@));
    let after = model::store_at(workflow, replies, store, 4 + 2 * count + 2);
    assert(after.rows("game_lobby_members"@) == second.rows("game_lobby_members"@));
    let end_rows = second.rows("game_lobby_members"@);
    let mid_rows = first.rows("game_lobby_members"@);
    assert(4 + count + count == 4 + 2 * count);
    assert forall|r: int| 0 <= r < end_rows.len() implies model::datum_in(
        #[trigger] end_rows[r],
        "lobby_id"@,
    ) == model::datum_in(kept[r], "lobby_id"@) && model::datum_in(end_rows[r], "user_id"@)
        == model::datum_in(kept[r], "user_id"@) by {
        assert(model::datum_in(mid_rows[r], "lobby_id"@) == model::datum_in(
            kept[r],
            "lobby_id"@,
        ));
    }
    assert forall|r: int| 0 <= r < end_rows.len() && !in_lobby(
        #[trigger] kept[r],
        lobby,
    ) implies end_rows[r] == kept[r] by {
        assert(!in_lobby(end_rows[r], lobby));
        assert(!in_lobby(mid_rows[r], lobby));
    }
    assert forall|r: int| 0 <= r < end_rows.len() && in_lobby(
        #[trigger] end_rows[r],
        lobby,
    ) implies !of_user(end_rows[r], user) by {
        assert(!model::meets_all(kept[r], removal.filters));
        if of_user(end_rows[r], user) {
            assert forall|k: int| 0 <= k < removal.filters.len() implies model::meets(
                kept[r],
                #[trigger] removal.filters[k],
            ) by {
                assert(k == 0 || k == 1);
            }
        }
    }
    assert forall|r: int, k: int|
        0 <= r < end_rows.len() && 0 <= k < order.len() && in_lobby(
            #[trigger] end_rows[r],
            lobby,
        ) && model::datum_in(end_rows[r], "user_id"@) == model::datum_in(
            #[trigger] order[k],
            "user_id"@,
        ) implies model::datum_in(end_rows[r], "seat"@) == Datum::Integer(k) by {
        let member = members[k];
        assert(of_user(end_rows[r], members[k].0));
    }
}

} // verus!
