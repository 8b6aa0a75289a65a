//! How games come about: by a challenge, an invitation or a lobby, and who plays first.
use crate::challenges::{
    self, ChallengeError, ChallengeStatus, CreationView, GameVisibilitySettings,
};
use crate::game::{self, GameId, Timestamp};
use crate::ids;
use crate::invitations::{self, InvitationError};
use crate::lobbies::{self, FirstView, GameCreationPolicy, LobbyError};
use crate::model::{self, Record, Store, Workflow};
use crate::script::{self, Ask, Outcome, Reply, Run, Trace};
use crate::settings_laws;
use crate::stages;
use crate::store::{Datum, Op, Row};
use vstd::prelude::*;

verus! {

/// Making a challenge.
pub open spec fn challenging(
    challenger: Seq<char>,
    challenged: Seq<char>,
    now: Timestamp,
) -> Workflow<Seq<char>, ChallengeError> {
    |trace: Trace| challenges::create_challenge_run(trace, challenger, challenged, now)
}

/// Declining a challenge.
pub open spec fn declining(challenge: Seq<char>, challenged: Seq<char>, now: Timestamp) -> Workflow<
    (),
    ChallengeError,
> {
    |trace: Trace| challenges::decline_run(trace, challenge, challenged, now)
}

/// Cancelling a challenge.
pub open spec fn cancelling(
    challenge: Seq<char>,
    challenger: Seq<char>,
    now: Timestamp,
) -> Workflow<(), ChallengeError> {
    |trace: Trace| challenges::cancel_run(trace, challenge, challenger, now)
}

/// Whether a row is a challenge from one user to another that waits for an answer.
pub open spec fn pending_challenge(
    record: Record,
    challenger: Seq<char>,
    challenged: Seq<char>,
) -> bool {
    &&& model::datum_in(record, "challenger_user_id"@) == Datum::Text(challenger)
    &&& model::datum_in(record, "challenged_user_id"@) == Datum::Text(challenged)
    &&& model::datum_in(record, "status"@) == Datum::Text("PENDING"@)
}

proof fn challenge_columns_differ()
    ensures
        "challenge_id"@ != "challenger_user_id"@,
        "challenge_id"@ != "challenged_user_id"@,
        "challenge_id"@ != "status"@,
        "challenge_id"@ != "created_at_ms"@,
        "challenge_id"@ != "updated_at_ms"@,
        "challenger_user_id"@ != "challenged_user_id"@,
        "challenger_user_id"@ != "status"@,
        "challenger_user_id"@ != "created_at_ms"@,
        "challenger_user_id"@ != "updated_at_ms"@,
        "challenged_user_id"@ != "status"@,
        "challenged_user_id"@ != "created_at_ms"@,
        "challenged_user_id"@ != "updated_at_ms"@,
        "status"@ != "created_at_ms"@,
        "status"@ != "updated_at_ms"@,
        "created_at_ms"@ != "updated_at_ms"@,
{
    reveal_strlit("challenge_id");
    reveal_strlit("challenger_user_id");
    reveal_strlit("challenged_user_id");
    reveal_strlit("status");
    reveal_strlit("created_at_ms");
    reveal_strlit("updated_at_ms");
    assert("challenge_id"@.len() == 12);
    assert("challenger_user_id"@.len() == 18 && "challenger_user_id"@[9] == 'r');
    assert("challenged_user_id"@.len() == 18 && "challenged_user_id"@[9] == 'd');
    assert("status"@.len() == 6);
    assert("created_at_ms"@.len() == 13 && "created_at_ms"@[0] == 'c');
    assert("updated_at_ms"@.len() == 13 && "updated_at_ms"@[0] == 'u');
}

/// A challenge that was made is pending from its challenger to the other user since that moment,
/// and is all that was written; there was no such challenge before.
pub proof fn new_challenges_are_pending(
    challenger: Seq<char>,
    challenged: Seq<char>,
    now: Timestamp,
    replies: Seq<Reply>,
    store: Store,
    challenge: Seq<char>,
)
    requires
        model::served(challenging(challenger, challenged, now), replies, store),
        model::ending(challenging(challenger, challenged, now), replies) == Outcome::<
            Seq<char>,
            ChallengeError,
        >::Done(challenge),
    ensures
        challenger != challenged,
        forall|i: int|
            0 <= i < store.rows("challenges"@).len() ==> !pending_challenge(
                #[trigger] store.rows("challenges"@)[i],
                challenger,
                challenged,
            ),
        ({
            let after = model::store_after(
                challenging(challenger, challenged, now),
                replies,
                store,
            );
            &&& game::millis_at(now) is Some
            &&& exists|row: Record| #[trigger]
                pending_challenge(row, challenger, challenged) && model::datum_in(
                    row,
                    "challenge_id"@,
                ) == Datum::Text(challenge) && model::datum_in(row, "created_at_ms"@)
                    == Datum::Integer(game::millis_at(now)->0 as int) && after == store.with_rows(
                    "challenges"@,
                    store.rows("challenges"@).push(row),
                )
        }),
{
    let fits = stages::anything();
    let stage = challenging(challenger, challenged, now);
    stages::whole_is_underway(stage, replies, store, fits);
    stages::whole_leaves(stage, replies, store);
    assert(stage(Trace { replies, at: 0 }).outcome is Done);
    let lookup = Op::select("challenges"@).where_text("challenger_user_id"@, challenger).where_text(
        "challenged_user_id"@,
        challenged,
    ).where_text("status"@, "PENDING"@);
    let insert = |id: Seq<char>|
        challenges::insert_challenge_op(id, challenger, challenged, game::millis_at(now)->0);
    let end = |id: Seq<char>|
        |rows: Seq<Row>, trace: Trace| script::done::<Seq<char>, ChallengeError>(trace, id);
    let drawn = |reply: Reply, trace: Trace|
        match reply {
            Reply::Ids(ids) if ids@.len() == 1 => match game::millis_at(now) {
                None => script::fail(trace, ChallengeError::Invalid),
                Some(now_ms) => script::query(
                    trace,
                    insert(ids::id_text_of(ids@[0])),
                    end(ids::id_text_of(ids@[0])),
                ),
            },
            _ => Run { outcome: Outcome::Mismatch(trace.at - 1), trace },
        };
    let looked = |existing: Seq<Row>, trace: Trace|
        if existing.len() > 0 {
            script::fail(trace, ChallengeError::Duplicate)
        } else if trace.spent() {
            Run { outcome: Outcome::Wait(Ask::FreshIds(1)), trace }
        } else {
            drawn(trace.reply(), trace.next())
        };
    assert forall|trace: Trace| #[trigger] stage(trace) == script::query(
        trace,
        lookup,
        looked,
    ) by {
        if !trace.spent() {
            if let Reply::Rows(rows) = trace.reply() {
                let next = trace.next();
                if !next.spent() {
                    if let Reply::Ids(ids) = next.reply() {
                        if ids@.len() == 1 && game::millis_at(now) is Some {
                            let id = ids::id_text_of(ids@[0]);
                            let performed = |rows: Seq<Row>, trace: Trace|
                                script::done::<Seq<char>, ChallengeError>(trace, id);
                            assert(performed =~= end(id));
                        }
                    }
                }
            }
        }
    }
    let existing = stages::asks_store(stage, lookup, looked, replies, 0, store, fits);
    let second: Workflow<Seq<char>, ChallengeError> = |trace: Trace| looked(existing, trace);
    assert(second(Trace { replies, at: 1 }).outcome is Done);
    stages::asks_outside(second, Ask::FreshIds(1), drawn, replies, 1, store, fits);
    let third: Workflow<Seq<char>, ChallengeError> = |trace: Trace| drawn(replies[1], trace);
    assert(third(Trace { replies, at: 2 }).outcome is Done);
    let id = ids::id_text_of(replies[1]->Ids_0@[0]);
    let op = insert(id);
    let done = stages::asks_store(third, op, end(id), replies, 2, store, fits);
    let last: Workflow<Seq<char>, ChallengeError> = |trace: Trace| end(id)(done, trace);
    let after = model::executed(store, op).0;
    stages::nothing_more(last, replies, 3, after, replies.len() as int);
    challenge_columns_differ();
    let values = op.values;
    assert(values.len() == 6);
    model::assigned_sets(Map::empty(), values, 0);
    model::assigned_sets(Map::empty(), values, 1);
    model::assigned_sets(Map::empty(), values, 2);
    model::assigned_sets(Map::empty(), values, 3);
    model::assigned_sets(Map::empty(), values, 4);
    let row = model::assigned(Map::empty(), values);
    assert(pending_challenge(row, challenger, challenged));
    let table = store.rows("challenges"@);
    model::found_rows(table, lookup.filters);
    assert(model::executed(store, lookup).1 == model::found(table, lookup.filters));
    assert forall|i: int| 0 <= i < table.len() implies !pending_challenge(
        #[trigger] table[i],
        challenger,
        challenged,
    ) by {
        if pending_challenge(table[i], challenger, challenged) {
            assert(model::meets(table[i], lookup.filters[0]));
            assert(model::meets(table[i], lookup.filters[1]));
            assert(model::meets(table[i], lookup.filters[2]));
            assert(model::meets_all(table[i], lookup.filters));
        }
    }
}

/// Whether one challenge was resolved, and no other row was touched.
pub open spec fn challenge_resolved(
    before: Seq<Record>,
    after: Seq<Record>,
    challenge: Seq<char>,
    status: Seq<char>,
    at: int,
) -> bool {
    &&& after.len() == before.len()
    &&& 0 <= at < before.len()
    &&& model::datum_in(before[at], "challenge_id"@) == Datum::Text(challenge)
    &&& model::datum_in(before[at], "status"@) == Datum::Text("PENDING"@)
    &&& model::datum_in(after[at], "status"@) == Datum::Text(status)
    &&& model::datum_in(after[at], "challenge_id"@) == Datum::Text(challenge)
    &&& model::datum_in(after[at], "challenger_user_id"@) == model::datum_in(
        before[at],
        "challenger_user_id"@,
    )
    &&& model::datum_in(after[at], "challenged_user_id"@) == model::datum_in(
        before[at],
        "challenged_user_id"@,
    )
    &&& forall|i: int| 0 <= i < before.len() && i != at ==> #[trigger] after[i] == before[i]
}

proof fn challenge_is_resolved(
    stage: Workflow<(), ChallengeError>,
    challenge: Seq<char>,
    column: Seq<char>,
    owner: Seq<char>,
    status: ChallengeStatus,
    now: Timestamp,
    replies: Seq<Reply>,
    store: Store,
) -> (at: int)
    requires
        forall|trace: Trace| #[trigger]
            stage(trace) == challenges::resolve_run(trace, challenge, column, owner, status, now),
        model::served(stage, replies, store),
        model::ending(stage, replies) is Done,
    ensures
        challenge_resolved(
            store.rows("challenges"@),
            model::store_after(stage, replies, store).rows("challenges"@),
            challenge,
            status.name(),
            at,
        ),
        model::datum_in(store.rows("challenges"@)[at], column) == Datum::Text(owner),
        forall|table: Seq<char>|
            table != "challenges"@ ==> #[trigger] model::store_after(stage, replies, store).rows(
                table,
            ) == store.rows(table),
{
    let fits = stages::anything();
    stages::whole_is_underway(stage, replies, store, fits);
    stages::whole_leaves(stage, replies, store);
    assert(stage(Trace { replies, at: 0 }) == challenges::resolve_run(
        Trace { replies, at: 0 },
        challenge,
        column,
        owner,
        status,
        now,
    ));
    let now_ms = game::millis_at(now)->0;
    let op = challenges::resolve_op(challenge, column, owner, status, now_ms);
    let rest = |updated: Seq<Row>, trace: Trace|
        if updated.len() != 1 {
            script::fail(trace, ChallengeError::Unauthorized)
        } else {
            script::done(trace, ())
        };
    assert forall|trace: Trace| #[trigger] stage(trace) == script::query(trace, op, rest) by {
        assert(stage(trace) == challenges::resolve_run(
            trace,
            challenge,
            column,
            owner,
            status,
            now,
        ));
    }
    let updated = stages::asks_store(stage, op, rest, replies, 0, store, fits);
    let second: Workflow<(), ChallengeError> = |trace: Trace| rest(updated, trace);
    let after = model::executed(store, op).0;
    stages::nothing_more(second, replies, 1, after, replies.len() as int);
    let rows = store.rows("challenges"@);
    let hits = model::found(rows, op.filters);
    model::found_rows(rows, op.filters);
    let at = choose|i: int|
        0 <= i < rows.len() && model::meets_all(#[trigger] rows[i], op.filters);
    assert(model::meets(rows[at], op.filters[0]));
    assert(model::meets(rows[at], op.filters[1]));
    assert(model::meets(rows[at], op.filters[2]));
    let changed = after.rows("challenges"@);
    assert(changed == model::updated(rows, op.filters, op.values));
    assert forall|i: int| 0 <= i < rows.len() && i != at implies #[trigger] changed[i]
        == rows[i] by {
        if model::meets_all(rows[i], op.filters) {
            settings_laws::one_is_hit(rows, op.filters, at, i);
        }
    }
    challenge_columns_differ();
    assert(op.values.len() == 2);
    model::assigned_sets(rows[at], op.values, 0);
    model::assigned_keeps(rows[at], op.values, "challenge_id"@);
    model::assigned_keeps(rows[at], op.values, "challenger_user_id"@);
    model::assigned_keeps(rows[at], op.values, "challenged_user_id"@);
    at
}

/// Only the user whom a pending challenge was sent to declines it; it is declined from then on.
pub proof fn declined_challenges_were_received(
    challenge: Seq<char>,
    challenged: Seq<char>,
    now: Timestamp,
    replies: Seq<Reply>,
    store: Store,
) -> (at: int)
    requires
        model::served(declining(challenge, challenged, now), replies, store),
        model::ending(declining(challenge, challenged, now), replies) is Done,
    ensures
        challenge_resolved(
            store.rows("challenges"@),
            model::store_after(declining(challenge, challenged, now), replies, store).rows(
                "challenges"@,
            ),
            challenge,
            "DECLINED"@,
            at,
        ),
        model::datum_in(store.rows("challenges"@)[at], "challenged_user_id"@) == Datum::Text(
            challenged,
        ),
{
    challenge_is_resolved(
        declining(challenge, challenged, now),
        challenge,
        "challenged_user_id"@,
        challenged,
        ChallengeStatus::Declined,
        now,
        replies,
        store,
    )
}

/// Only the user who has sent a pending challenge cancels it; it is cancelled from then on.
pub proof fn cancelled_challenges_were_sent(
    challenge: Seq<char>,
    challenger: Seq<char>,
    now: Timestamp,
    replies: Seq<Reply>,
    store: Store,
) -> (at: int)
    requires
        model::served(cancelling(challenge, challenger, now), replies, store),
        model::ending(cancelling(challenge, challenger, now), replies) is Done,
    ensures
        challenge_resolved(
            store.rows("challenges"@),
            model::store_after(cancelling(challenge, challenger, now), replies, store).rows(
                "challenges"@,
            ),
            challenge,
            "CANCELLED"@,
            at,
        ),
        model::datum_in(store.rows("challenges"@)[at], "challenger_user_id"@) == Datum::Text(
            challenger,
        ),
{
    challenge_is_resolved(
        cancelling(challenge, challenger, now),
        challenge,
        "challenger_user_id"@,
        challenger,
        ChallengeStatus::Cancelled,
        now,
        replies,
        store,
    )
}

/// Whether a game was created for two users, the first of whom has the first turn, under the rules
/// that the engine gave at a place, with its tiles hidden.
pub open spec fn created_for_two(
    game: GameId,
    first: Seq<char>,
    second: Seq<char>,
    now: Timestamp,
    seed: u64,
    key: Seq<char>,
    creation: CreationView,
    place: Trace,
) -> bool {
    &&& creation.users == seq![first, second]
    &&& creation.first == 0
    &&& creation.now == now
    &&& creation.seed == seed
    &&& creation.key == key
    &&& !creation.visibility.show_remaining_tile_count
    &&& !creation.visibility.show_remaining_tile_faces
    &&& !place.spent()
    &&& place.reply() == Reply::Rules(creation.rules)
    &&& challenges::create_game_run(place.next(), creation).outcome == Outcome::<
        GameId,
        ChallengeError,
    >::Done(game)
}

proof fn classic_game_is_created(
    trace: Trace,
    first: Seq<char>,
    second: Seq<char>,
    now: Timestamp,
    seed: u64,
    key: Seq<char>,
    game: GameId,
)
    requires
        challenges::create_classic_game_run(
            trace,
            seq![first, second],
            0,
            now,
            seed,
            key,
        ).outcome == Outcome::<GameId, ChallengeError>::Done(game),
    ensures
        exists|creation: CreationView| #[trigger]
            created_for_two(game, first, second, now, seed, key, creation, trace),
{
    let creation = CreationView {
        users: seq![first, second],
        first: 0,
        rules: trace.reply()->Rules_0,
        now,
        seed,
        key,
        visibility: GameVisibilitySettings::hidden(),
    };
    assert(created_for_two(game, first, second, now, seed, key, creation, trace));
}

/// An accepted challenge leads to a game between the user who has sent it, who plays first, and the
/// user who has accepted it.
pub proof fn accepted_challenges_start_a_game(
    trace: Trace,
    challenge: Seq<char>,
    challenged: Seq<char>,
    now: Timestamp,
    seed: u64,
    game: GameId,
)
    requires
        challenges::accept_challenge_run(trace, challenge, challenged, now, seed).outcome
            == Outcome::<GameId, ChallengeError>::Done(game),
    ensures
        trace.at + 2 < trace.replies.len(),
        trace.replies[trace.at + 1] matches Reply::Rows(rows) && rows@.len() > 0 && (
        rows@[0].text_at("challenger_user_id"@) matches Some(challenger) && exists|
            creation: CreationView,
        | #[trigger]
            created_for_two(
                game,
                challenger,
                challenged,
                now,
                seed,
                "accept:"@ + challenge,
                creation,
                Trace { at: trace.at + 3, ..trace },
            )),
{
    let rows = trace.replies[trace.at + 1]->Rows_0@;
    let challenger = rows[0].text_at("challenger_user_id"@)->0;
    let place = trace.next().next().next();
    assert(place == Trace { at: trace.at + 3, ..trace });
    assert(challenges::create_classic_game_run(
        place,
        seq![challenger, challenged],
        0,
        now,
        seed,
        "accept:"@ + challenge,
    ).outcome == Outcome::<GameId, ChallengeError>::Done(game));
    classic_game_is_created(
        place,
        challenger,
        challenged,
        now,
        seed,
        "accept:"@ + challenge,
        game,
    );
}

/// A redeemed invitation leads to a game between its creator, who plays first, and the user who has
/// redeemed it.
pub proof fn redeemed_invitations_start_a_game(
    trace: Trace,
    secret: Seq<char>,
    redeemer: Seq<char>,
    now: Timestamp,
    seed: u64,
    game: GameId,
)
    requires
        invitations::redeem_and_start_run(trace, secret, redeemer, now, seed).outcome == Outcome::<
            GameId,
            InvitationError,
        >::Done(game),
    ensures
        ({
            let marked = invitations::mark_redeemed_run(trace, secret, redeemer, now);
            marked.outcome matches Outcome::Done(invitation) && exists|creation: CreationView|
             #[trigger]
                created_for_two(
                    game,
                    invitation.1,
                    redeemer,
                    now,
                    seed,
                    "redeem:"@ + invitation.0,
                    creation,
                    marked.trace,
                )
        }),
{
    let marked = invitations::mark_redeemed_run(trace, secret, redeemer, now);
    let invitation = marked.outcome->Done_0;
    classic_game_is_created(
        marked.trace,
        invitation.1,
        redeemer,
        now,
        seed,
        "redeem:"@ + invitation.0,
        game,
    );
}

/// Whether a game was created for the members of a lobby in seat order, with the player whom the
/// settings name first, under the rules that the engine gave at a place.
pub open spec fn created_for_members(
    game: GameId,
    members: Seq<(Seq<char>, usize)>,
    first: FirstView,
    lobby: Seq<char>,
    creator: Seq<char>,
    now: Timestamp,
    seed: u64,
    creation: CreationView,
    place: Trace,
) -> bool {
    &&& creation.users.len() == members.len()
    &&& forall|i: int|
        0 <= i < members.len() ==> #[trigger] creation.users[i] == members[i].0
    &&& 0 <= creation.first < members.len()
    &&& match first {
        FirstView::Creator => creation.users[creation.first] == creator,
        FirstView::Chosen(user) => creation.users[creation.first] == user,
        FirstView::Random => creation.first == seed * members.len() / 0x1_0000_0000_0000_0000,
    }
    &&& creation.now == now
    &&& creation.seed == seed
    &&& creation.key == "start-lobby:"@ + lobby
    &&& !creation.visibility.show_remaining_tile_count
    &&& !creation.visibility.show_remaining_tile_faces
    &&& !place.spent()
    &&& place.reply() == Reply::Rules(creation.rules)
    &&& challenges::create_game_run(place.next(), creation).outcome == Outcome::<
        GameId,
        ChallengeError,
    >::Done(game)
}

proof fn member_stands_at(members: Seq<(Seq<char>, usize)>, user: Seq<char>)
    ensures
        lobbies::member_index(members, user) matches Some(index) ==> 0 <= index < members.len()
            && members[index].0 == user,
    decreases members.len(),
{
    if members.len() > 0 && members[0].0 != user {
        member_stands_at(members.skip(1), user);
    }
}

/// An open lobby that starts leads to a game of its members, two or more, in seat order, with the
/// first player whom its settings name, under rules for its board and its tile sets.
pub proof fn started_lobbies_seat_their_members(
    trace: Trace,
    row: Row,
    lobby: Seq<char>,
    creator: Seq<char>,
    policy: GameCreationPolicy,
    now: Timestamp,
    seed: u64,
    game: GameId,
)
    requires
        lobbies::start_open_run(trace, row, lobby, creator, policy, now, seed).outcome
            == Outcome::<GameId, LobbyError>::Done(game),
    ensures
        lobbies::settings_of(row) matches Some(settings) && policy.admits(settings) && ({
            let seated = lobbies::members_run(trace, lobby);
            &&& seated.outcome matches Outcome::Done(members)
            &&& members.len() >= 2
            &&& exists|creation: CreationView| #[trigger]
                created_for_members(
                    game,
                    members,
                    settings.first_player,
                    lobby,
                    creator,
                    now,
                    seed,
                    creation,
                    seated.trace,
                )
        }),
{
    let settings = lobbies::settings_of(row)->0;
    let seated = lobbies::members_run(trace, lobby);
    let members = seated.outcome->Done_0;
    let first = lobbies::first_index(settings.first_player, members, creator, seed)->0;
    let creation = CreationView {
        users: lobbies::member_users(members),
        first,
        rules: seated.trace.reply()->Rules_0,
        now,
        seed,
        key: "start-lobby:"@ + lobby,
        visibility: GameVisibilitySettings::hidden(),
    };
    match settings.first_player {
        FirstView::Creator => member_stands_at(members, creator),
        FirstView::Chosen(user) => member_stands_at(members, user),
        FirstView::Random => lobbies::scaled_in_range(seed, members.len() as int),
    }
    assert(lobbies::launch_run(
        seated.trace,
        row,
        lobby,
        settings,
        creation.users,
        first,
        now,
        seed,
    ).outcome == Outcome::<GameId, LobbyError>::Done(game));
    assert(created_for_members(
        game,
        members,
        settings.first_player,
        lobby,
        creator,
        now,
        seed,
        creation,
        seated.trace,
    ));
}

/// The rules of a lobby's game are asked for its board and its tile sets.
pub proof fn lobbies_ask_for_their_rules(
    trace: Trace,
    row: Row,
    lobby: Seq<char>,
    creator: Seq<char>,
    policy: GameCreationPolicy,
    now: Timestamp,
    seed: u64,
)
    requires
        lobbies::settings_of(row) matches Some(settings) && policy.admits(settings),
        lobbies::members_run(trace, lobby).outcome is Done,
        lobbies::members_run(trace, lobby).trace.spent(),
    ensures
        match lobbies::start_open_run(trace, row, lobby, creator, policy, now, seed).outcome {
            Outcome::Wait(Ask::GenerateRules(choices)) => choices.board_size
                == lobbies::settings_of(row)->0.board_size && choices.tile_set_count
                == lobbies::settings_of(row)->0.tile_set_count,
            Outcome::Fail(error) => error == LobbyError::NotReady,
            _ => false,
        },
{
}

/// Only the creator starts a lobby: where it has started already its game is given again, and where
/// it is open it is started.
pub proof fn creators_start_their_lobbies(
    trace: Trace,
    lobby: Seq<char>,
    creator: Seq<char>,
    policy: GameCreationPolicy,
    now: Timestamp,
    seed: u64,
    game: GameId,
)
    requires
        lobbies::start_lobby_run(trace, lobby, creator, policy, now, seed).outcome == Outcome::<
            GameId,
            LobbyError,
        >::Done(game),
    ensures
        trace.at + 1 < trace.replies.len(),
        trace.replies[trace.at + 1] matches Reply::Rows(rows) && rows@.len() > 0
            && rows@[0].text_at("creator_user_id"@) == Some(creator) && (match rows@[0].text_at(
            "status"@,
        ) {
            Some(status) => (status == "STARTED"@ && (rows@[0].text_at(
                "started_game_id"@,
            ) matches Some(started) && ids::parsed_id(started) == Some(game))) || (status
                == "OPEN"@ && lobbies::start_open_run(
                Trace { at: trace.at + 2, ..trace },
                rows@[0],
                lobby,
                creator,
                policy,
                now,
                seed,
            ).outcome == Outcome::<GameId, LobbyError>::Done(game)),
            None => false,
        }),
{
    let place = trace.next().next();
    assert(place == Trace { at: trace.at + 2, ..trace });
}

/// Where the first player is drawn, every seat can be drawn.
pub proof fn every_seat_can_be_first(seats: int, seat: int) -> (seed: u64)
    requires
        0 <= seat < seats <= 0x1_0000_0000_0000_0000,
    ensures
        lobbies::scaled(seed, seats) == seat,
{
    let whole: int = 0x1_0000_0000_0000_0000;
    let least = (seat * whole + seats - 1) / seats;
    assert(0 <= least < whole && seat * whole <= least * seats < seat * whole + seats)
        by (nonlinear_arith)
        requires
            0 <= seat < seats <= whole,
            whole == 0x1_0000_0000_0000_0000,
            least == (seat * whole + seats - 1) / seats,
    ;
    let seed = least as u64;
    assert(seed * seats / 0x1_0000_0000_0000_0000 == seat) by (nonlinear_arith)
        requires
            seat * whole <= seed * seats < seat * whole + whole,
            whole == 0x1_0000_0000_0000_0000,
    ;
    seed
}

} // verus!
