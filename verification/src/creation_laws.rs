//! What a new game promises: it stands in the store as it was dealt, is recovered from there, and
//! every one of its users has a seat.
use crate::challenges::{self, ChallengeError, CreationView};
use crate::frames;
use crate::game::{self, GameEvent, GameId, GameState, PlayerId};
use crate::game_service::{self, GameServiceError};
use crate::ids;
use crate::journal::JournalError;
use crate::journal_laws::{self, Engine};
use crate::model::{self, Record, Store, Workflow};
use crate::recovery_laws::{self, EventReader, StateReader};
use crate::script::{self, Ask, Outcome, Reply, Run, SetupView, Trace};
use crate::stages;
use crate::store::{self, Datum, Op, Row};
use vstd::prelude::*;

verus! {

/// Creating a game.
pub open spec fn creating(creation: CreationView) -> Workflow<GameId, ChallengeError> {
    |trace: Trace| challenges::create_game_run(trace, creation)
}

/// The players that were drawn for the users, in seat order.
pub open spec fn drawn_players(replies: Seq<Reply>) -> Seq<PlayerId> {
    replies[1]->Ids_0@
}

/// The start that the rules engine dealt.
pub open spec fn dealt(replies: Seq<Reply>) -> GameEvent {
    script::reply_event(replies[3])->0
}

/// The text in which the start was written.
pub open spec fn start_text(creation: CreationView, replies: Seq<Reply>) -> Seq<char> {
    script::reply_text(replies[5 + creation.users.len() as int])->0
}

/// What the rules engine was asked to deal.
pub open spec fn setup_of(creation: CreationView, game_id: GameId, players: Seq<PlayerId>) -> SetupView {
    SetupView {
        game_id,
        players,
        first_player: players[creation.first],
        rules: creation.rules,
        dictionary: challenges::pinned_dictionary(),
        created_at: creation.now,
        shuffle_seed: creation.seed,
    }
}

/// The row of a seat.
pub open spec fn seat_record(
    game_id: GameId,
    players: Seq<PlayerId>,
    users: Seq<Seq<char>>,
    seat: int,
) -> Record {
    model::assigned(
        Map::empty(),
        challenges::insert_player_op(game_id, players[seat], users[seat], seat).values,
    )
}

/// The rows of the first seats.
pub open spec fn seat_records(
    game_id: GameId,
    players: Seq<PlayerId>,
    users: Seq<Seq<char>>,
    count: int,
) -> Seq<Record> {
    Seq::new(count as nat, |seat: int| seat_record(game_id, players, users, seat))
}

/// Whether a store holds a new game besides what another one holds: the game at its first
/// revision under its rules, a seat for every user, the start, and the command behind it.
pub open spec fn with_game(
    store: Store,
    after: Store,
    creation: CreationView,
    game_id: GameId,
    players: Seq<PlayerId>,
    payload: Seq<char>,
    now_ms: i64,
) -> bool {
    &&& after.rows("games"@) == store.rows("games"@).push(
        model::assigned(
            Map::empty(),
            challenges::insert_game_op(creation, game_id, now_ms).values,
        ),
    )
    &&& after.rows("game_players"@) == store.rows("game_players"@) + seat_records(
        game_id,
        players,
        creation.users,
        creation.users.len() as int,
    )
    &&& after.rows("game_journal"@) == store.rows("game_journal"@).push(
        model::assigned(
            Map::empty(),
            challenges::insert_start_op(game_id, creation.key, payload).values,
        ),
    )
    &&& after.rows("game_commands"@) == store.rows("game_commands"@).push(
        model::assigned(
            Map::empty(),
            challenges::insert_start_command_op(game_id, creation.key).values,
        ),
    )
    &&& after.rows("game_snapshots"@) == store.rows("game_snapshots"@)
}

proof fn tables_differ()
    ensures
        "games"@ != "game_players"@,
        "games"@ != "game_journal"@,
        "games"@ != "game_commands"@,
        "games"@ != "game_snapshots"@,
        "game_players"@ != "game_journal"@,
        "game_players"@ != "game_commands"@,
        "game_players"@ != "game_snapshots"@,
        "game_journal"@ != "game_commands"@,
        "game_journal"@ != "game_snapshots"@,
        "game_commands"@ != "game_snapshots"@,
        !frames::projection_table("games"@),
        !frames::projection_table("game_players"@),
        !frames::projection_table("game_journal"@),
        !frames::projection_table("game_commands"@),
        !frames::projection_table("game_snapshots"@),
{
    reveal_strlit("games");
    reveal_strlit("game_players");
    reveal_strlit("game_journal");
    reveal_strlit("game_commands");
    reveal_strlit("game_snapshots");
    reveal_strlit("move_history");
    reveal_strlit("game_summaries");
    reveal_strlit("game_scores");
    reveal_strlit("user_score_totals");
    reveal_strlit("projection_checkpoints");
    assert("games"@.len() == 5);
    assert("game_players"@.len() == 12 && "game_players"@[5] == 'p');
    assert("game_journal"@.len() == 12 && "game_journal"@[5] == 'j');
    assert("game_commands"@.len() == 13);
    assert("game_snapshots"@.len() == 14 && "game_snapshots"@[6] == 'n');
    assert("move_history"@.len() == 12 && "move_history"@[0] == 'm');
    assert("game_summaries"@.len() == 14 && "game_summaries"@[6] == 'u');
    assert("game_scores"@.len() == 11);
    assert("user_score_totals"@.len() == 17);
    assert("projection_checkpoints"@.len() == 22);
}

/// Projecting a new game.
spec fn projecting_start(game_id: GameId, started: GameEvent, seats: int, now_ms: i64) -> Workflow<
    GameId,
    ChallengeError,
> {
    |trace: Trace| challenges::project_start_run(trace, game_id, started, seats, now_ms)
}

/// Recording the start, and going on.
spec fn recording(
    game_id: GameId,
    key: Seq<char>,
    started: GameEvent,
    seats: int,
    now_ms: i64,
) -> Workflow<GameId, ChallengeError> {
    |trace: Trace|
        script::chain(
            challenges::record_start_run(trace, game_id, key, started),
            |recorded: (), trace: Trace|
                projecting_start(game_id, started, seats, now_ms)(trace),
        )
}

/// Seating the users from `seat` on, and going on.
spec fn seating(
    creation: CreationView,
    game_id: GameId,
    players: Seq<PlayerId>,
    started: GameEvent,
    now_ms: i64,
    seat: int,
) -> Workflow<GameId, ChallengeError> {
    |trace: Trace|
        script::chain(
            challenges::seat_users_run(trace, game_id, players, creation.users, seat),
            |seated: (), trace: Trace|
                recording(
                    game_id,
                    creation.key,
                    started,
                    creation.users.len() as int,
                    now_ms,
                )(trace),
        )
}

/// A recorded start stands in the journal, with its command.
proof fn start_is_recorded(
    game_id: GameId,
    key: Seq<char>,
    started: GameEvent,
    seats: int,
    now_ms: i64,
    replies: Seq<Reply>,
    from: int,
    store: Store,
)
    requires
        stages::underway(
            recording(game_id, key, started, seats, now_ms),
            replies,
            from,
            store,
            stages::anything(),
        ),
        recording(game_id, key, started, seats, now_ms)(Trace { replies, at: from }).outcome
            is Done,
    ensures
        from < replies.len(),
        ({
            let payload = script::reply_text(replies[from])->0;
            let after = stages::stage_store(
                recording(game_id, key, started, seats, now_ms),
                replies,
                from,
                store,
                replies.len() as int,
            );
            &&& after.rows("game_journal"@) == store.rows("game_journal"@).push(
                model::assigned(
                    Map::empty(),
                    challenges::insert_start_op(game_id, key, payload).values,
                ),
            )
            &&& after.rows("game_commands"@) == store.rows("game_commands"@).push(
                model::assigned(
                    Map::empty(),
                    challenges::insert_start_command_op(game_id, key).values,
                ),
            )
            &&& after.rows("games"@) == store.rows("games"@)
            &&& after.rows("game_players"@) == store.rows("game_players"@)
            &&& after.rows("game_snapshots"@) == store.rows("game_snapshots"@)
        }),
{
    let fits = stages::anything();
    let stage = recording(game_id, key, started, seats, now_ms);
    let last = projecting_start(game_id, started, seats, now_ms);
    let command = challenges::insert_start_command_op(game_id, key);
    let ended = |rows: Seq<Row>, trace: Trace| last(trace);
    let inserted = |rows: Seq<Row>, trace: Trace| script::query(trace, command, ended);
    let rest = |reply: Reply, trace: Trace|
        match reply {
            Reply::Refused(reason) => script::fail(trace, ChallengeError::Serialization(reason)),
            Reply::Text(payload) => script::query(
                trace,
                challenges::insert_start_op(game_id, key, payload@),
                inserted,
            ),
            _ => Run { outcome: Outcome::Mismatch(trace.at - 1), trace },
        };
    let ask = Ask::EncodeEvent(started);
    assert forall|trace: Trace| #[trigger] stage(trace) == (if trace.spent() {
        Run { outcome: Outcome::Wait(ask), trace }
    } else {
        rest(trace.reply(), trace.next())
    }) by {}
    stages::asks_outside(stage, ask, rest, replies, from, store, fits);
    assert(replies[from] is Text);
    let payload = replies[from]->Text_0@;
    let insert = challenges::insert_start_op(game_id, key, payload);
    let second: Workflow<GameId, ChallengeError> = |trace: Trace| rest(replies[from], trace);
    let r1 = stages::asks_store(second, insert, inserted, replies, from + 1, store, fits);
    let s1 = model::executed(store, insert).0;
    let third: Workflow<GameId, ChallengeError> = |trace: Trace| inserted(r1, trace);
    let r2 = stages::asks_store(third, command, ended, replies, from + 2, s1, fits);
    let s2 = model::executed(s1, command).0;
    let fourth: Workflow<GameId, ChallengeError> = |trace: Trace| ended(r2, trace);
    let count = replies.len() as int;
    assert forall|trace: Trace| frames::keeps_to_projections(#[trigger] fourth(trace)) by {
        frames::start_keeps(trace, game_id, started, seats, now_ms);
    }
    tables_differ();
    assert(stages::stage_store(stage, replies, from, store, count) == stages::stage_store(
        second,
        replies,
        from + 1,
        store,
        count,
    ));
    assert(stages::stage_store(second, replies, from + 1, store, count) == stages::stage_store(
        third,
        replies,
        from + 2,
        s1,
        count,
    ));
    assert(stages::stage_store(third, replies, from + 2, s1, count) == stages::stage_store(
        fourth,
        replies,
        from + 3,
        s2,
        count,
    ));
    frames::stage_leaves(fourth, replies, from + 3, s2, count, "games"@);
    frames::stage_leaves(fourth, replies, from + 3, s2, count, "game_players"@);
    frames::stage_leaves(fourth, replies, from + 3, s2, count, "game_journal"@);
    frames::stage_leaves(fourth, replies, from + 3, s2, count, "game_commands"@);
    frames::stage_leaves(fourth, replies, from + 3, s2, count, "game_snapshots"@);
}

/// Users that are seated have their seats, and the start is recorded behind them.
proof fn users_are_seated(
    creation: CreationView,
    game_id: GameId,
    players: Seq<PlayerId>,
    started: GameEvent,
    now_ms: i64,
    seat: int,
    replies: Seq<Reply>,
    from: int,
    store: Store,
)
    requires
        0 <= seat <= creation.users.len(),
        stages::underway(
            seating(creation, game_id, players, started, now_ms, seat),
            replies,
            from,
            store,
            stages::anything(),
        ),
        seating(creation, game_id, players, started, now_ms, seat)(
            Trace { replies, at: from },
        ).outcome is Done,
    ensures
        ({
            let place = from + creation.users.len() - seat;
            let payload = script::reply_text(replies[place])->0;
            let after = stages::stage_store(
                seating(creation, game_id, players, started, now_ms, seat),
                replies,
                from,
                store,
                replies.len() as int,
            );
            &&& place < replies.len()
            &&& after.rows("game_players"@) == store.rows("game_players"@) + seat_records(
                game_id,
                players,
                creation.users,
                creation.users.len() as int,
            ).skip(seat)
            &&& after.rows("game_journal"@) == store.rows("game_journal"@).push(
                model::assigned(
                    Map::empty(),
                    challenges::insert_start_op(game_id, creation.key, payload).values,
                ),
            )
            &&& after.rows("game_commands"@) == store.rows("game_commands"@).push(
                model::assigned(
                    Map::empty(),
                    challenges::insert_start_command_op(game_id, creation.key).values,
                ),
            )
            &&& after.rows("games"@) == store.rows("games"@)
            &&& after.rows("game_snapshots"@) == store.rows("game_snapshots"@)
        }),
    decreases creation.users.len() - seat,
{
    let fits = stages::anything();
    let stage = seating(creation, game_id, players, started, now_ms, seat);
    let users = creation.users;
    let seats = users.len() as int;
    let records = seat_records(game_id, players, users, seats);
    let count = replies.len() as int;
    tables_differ();
    if seat < seats {
        if seat > i64::MAX {
            assert(stage(Trace { replies, at: from }).outcome is Fail);
        }
        let op = challenges::insert_player_op(game_id, players[seat], users[seat], seat);
        let next = seating(creation, game_id, players, started, now_ms, seat + 1);
        let rest = |rows: Seq<Row>, trace: Trace| next(trace);
        assert forall|trace: Trace| #[trigger] stage(trace) == script::query(trace, op, rest) by {}
        let rows = stages::asks_store(stage, op, rest, replies, from, store, fits);
        let s1 = model::executed(store, op).0;
        let second: Workflow<GameId, ChallengeError> = |trace: Trace| rest(rows, trace);
        assert(second =~= next);
        users_are_seated(
            creation,
            game_id,
            players,
            started,
            now_ms,
            seat + 1,
            replies,
            from + 1,
            s1,
        );
        assert(stages::stage_store(stage, replies, from, store, count) == stages::stage_store(
            next,
            replies,
            from + 1,
            s1,
            count,
        ));
        assert(s1.rows("game_players"@) == store.rows("game_players"@).push(records[seat]));
        assert(store.rows("game_players"@).push(records[seat]) + records.skip(seat + 1)
            =~= store.rows("game_players"@) + records.skip(seat));
    } else {
        let next = recording(game_id, creation.key, started, seats, now_ms);
        assert forall|trace: Trace| #[trigger] stage(trace) == next(trace) by {}
        assert(stage =~= next);
        start_is_recorded(
            game_id,
            creation.key,
            started,
            seats,
            now_ms,
            replies,
            from,
            store,
        );
        assert(store.rows("game_players"@) + records.skip(seat) =~= store.rows("game_players"@));
    }
}

/// Dealing a game.
spec fn dealing(creation: CreationView, game_id: GameId, players: Seq<PlayerId>) -> Workflow<
    GameId,
    ChallengeError,
> {
    |trace: Trace| challenges::deal_game_run(trace, creation, game_id, players)
}

/// Storing a game that was dealt.
spec fn storing(
    creation: CreationView,
    game_id: GameId,
    players: Seq<PlayerId>,
    started: GameEvent,
    now_ms: i64,
) -> Workflow<GameId, ChallengeError> {
    |trace: Trace|
        script::query(
            trace,
            challenges::insert_game_op(creation, game_id, now_ms),
            |rows: Seq<Row>, trace: Trace|
                seating(creation, game_id, players, started, now_ms, 0)(trace),
        )
}

/// What follows when the rules engine has dealt.
spec fn after_dealing(
    creation: CreationView,
    game_id: GameId,
    players: Seq<PlayerId>,
) -> spec_fn(Reply, Trace) -> Run<GameId, ChallengeError> {
    |reply: Reply, trace: Trace|
        match reply {
            Reply::Refused(reason) => script::fail(trace, ChallengeError::Initialization(reason)),
            reply => match script::reply_event(reply) {
                None => Run { outcome: Outcome::Mismatch(trace.at - 1), trace },
                Some(started) => match game::millis_at(creation.now) {
                    None => script::fail(trace, ChallengeError::Invalid),
                    Some(now_ms) => storing(creation, game_id, players, started, now_ms)(trace),
                },
            },
        }
}

/// Storing a game is what dealing goes on with.
proof fn storing_follows(
    creation: CreationView,
    game_id: GameId,
    players: Seq<PlayerId>,
    started: GameEvent,
    now_ms: i64,
    trace: Trace,
)
    ensures
        script::perform(
            trace,
            challenges::insert_game_op(creation, game_id, now_ms),
            |trace: Trace|
                script::chain(
                    challenges::seat_users_run(trace, game_id, players, creation.users, 0),
                    |seated: (), trace: Trace|
                        script::chain(
                            challenges::record_start_run(trace, game_id, creation.key, started),
                            |recorded: (), trace: Trace|
                                challenges::project_start_run(
                                    trace,
                                    game_id,
                                    started,
                                    creation.users.len() as int,
                                    now_ms,
                                ),
                        ),
                ),
        ) == storing(creation, game_id, players, started, now_ms)(trace),
{
}

/// Dealing asks the rules engine for the start.
proof fn dealing_begins(
    creation: CreationView,
    game_id: GameId,
    players: Seq<PlayerId>,
    trace: Trace,
)
    ensures
        dealing(creation, game_id, players)(trace) == (if trace.spent() {
            Run {
                outcome: Outcome::Wait(Ask::Initialize(setup_of(creation, game_id, players))),
                trace,
            }
        } else {
            after_dealing(creation, game_id, players)(trace.reply(), trace.next())
        }),
{
    if !trace.spent() {
        if let Some(started) = script::reply_event(trace.reply()) {
            if let Some(now_ms) = game::millis_at(creation.now) {
                storing_follows(creation, game_id, players, started, now_ms, trace.next());
            }
        }
    }
}

/// A game that was dealt stands in the store.
proof fn dealt_games_are_stored(
    creation: CreationView,
    game_id: GameId,
    players: Seq<PlayerId>,
    replies: Seq<Reply>,
    store: Store,
)
    requires
        stages::underway(
            dealing(creation, game_id, players),
            replies,
            3,
            store,
            stages::anything(),
        ),
        dealing(creation, game_id, players)(Trace { replies, at: 3 }).outcome is Done,
    ensures
        replies.len() > 5 + creation.users.len(),
        game::millis_at(creation.now) is Some,
        script::reply_event(replies[3]) is Some,
        with_game(
            store,
            stages::stage_store(
                dealing(creation, game_id, players),
                replies,
                3,
                store,
                replies.len() as int,
            ),
            creation,
            game_id,
            players,
            start_text(creation, replies),
            game::millis_at(creation.now)->0,
        ),
{
    let fits = stages::anything();
    let stage = dealing(creation, game_id, players);
    let ask = Ask::Initialize(setup_of(creation, game_id, players));
    let rest = after_dealing(creation, game_id, players);
    assert forall|trace: Trace| #[trigger] stage(trace) == (if trace.spent() {
        Run { outcome: Outcome::Wait(ask), trace }
    } else {
        rest(trace.reply(), trace.next())
    }) by {
        dealing_begins(creation, game_id, players, trace);
    }
    stages::asks_outside(stage, ask, rest, replies, 3, store, fits);
    let started = dealt(replies);
    let now_ms = game::millis_at(creation.now)->0;
    assert(script::reply_event(replies[3]) is Some && game::millis_at(creation.now) is Some);
    let insert = challenges::insert_game_op(creation, game_id, now_ms);
    let second: Workflow<GameId, ChallengeError> = |trace: Trace| rest(replies[3], trace);
    let stored = storing(creation, game_id, players, started, now_ms);
    assert forall|trace: Trace| #[trigger] second(trace) == stored(trace) by {}
    assert(second =~= stored);
    let next = seating(creation, game_id, players, started, now_ms, 0);
    let seat_all = |rows: Seq<Row>, trace: Trace| next(trace);
    assert forall|trace: Trace| #[trigger] stored(trace) == script::query(
        trace,
        insert,
        seat_all,
    ) by {}
    let rows = stages::asks_store(stored, insert, seat_all, replies, 4, store, fits);
    let s1 = model::executed(store, insert).0;
    let third: Workflow<GameId, ChallengeError> = |trace: Trace| seat_all(rows, trace);
    assert(third =~= next);
    users_are_seated(creation, game_id, players, started, now_ms, 0, replies, 5, s1);
    let count = replies.len() as int;
    assert(stages::stage_store(stage, replies, 3, store, count) == stages::stage_store(
        stored,
        replies,
        4,
        store,
        count,
    ));
    assert(stages::stage_store(stored, replies, 4, store, count) == stages::stage_store(
        next,
        replies,
        5,
        s1,
        count,
    ));
    tables_differ();
    let records = seat_records(game_id, players, creation.users, creation.users.len() as int);
    assert(records.skip(0) =~= records);
}

/// A game that was dealt is returned under its identity.
proof fn start_names_the_game(
    creation: CreationView,
    game_id: GameId,
    players: Seq<PlayerId>,
    trace: Trace,
)
    ensures
        dealing(creation, game_id, players)(trace).outcome matches Outcome::Done(named)
            ==> named == game_id,
{
}

/// What follows when the dictionary has been pinned.
spec fn after_pinning(
    creation: CreationView,
    game_id: GameId,
    players: Seq<PlayerId>,
) -> spec_fn(Reply, Trace) -> Run<GameId, ChallengeError> {
    |reply: Reply, trace: Trace|
        match reply {
            Reply::Refused(_) => script::fail(trace, ChallengeError::Compatibility),
            reply => match script::reply_accepted(reply) {
                Some(_) => dealing(creation, game_id, players)(trace),
                None => Run { outcome: Outcome::Mismatch(trace.at - 1), trace },
            },
        }
}

/// Pinning the dictionary, and going on.
spec fn pinning(creation: CreationView, game_id: GameId, players: Seq<PlayerId>) -> Workflow<
    GameId,
    ChallengeError,
> {
    |trace: Trace|
        if trace.spent() {
            Run {
                outcome: Outcome::Wait(Ask::PinDictionary(challenges::pinned_dictionary())),
                trace,
            }
        } else {
            after_pinning(creation, game_id, players)(trace.reply(), trace.next())
        }
}

/// What follows when the players have been drawn.
spec fn after_players(creation: CreationView, game_id: GameId) -> spec_fn(Reply, Trace) -> Run<
    GameId,
    ChallengeError,
> {
    |reply: Reply, trace: Trace|
        match reply {
            Reply::Ids(players) if players@.len() == creation.users.len() => pinning(
                creation,
                game_id,
                players@,
            )(trace),
            _ => Run { outcome: Outcome::Mismatch(trace.at - 1), trace },
        }
}

/// Drawing the players, and going on.
spec fn drawing_players(creation: CreationView, game_id: GameId) -> Workflow<
    GameId,
    ChallengeError,
> {
    |trace: Trace|
        if trace.spent() {
            Run {
                outcome: Outcome::Wait(Ask::FreshIds(creation.users.len() as int)),
                trace,
            }
        } else {
            after_players(creation, game_id)(trace.reply(), trace.next())
        }
}

/// What follows when the game's identity has been drawn.
spec fn after_game(creation: CreationView) -> spec_fn(Reply, Trace) -> Run<
    GameId,
    ChallengeError,
> {
    |reply: Reply, trace: Trace|
        match reply {
            Reply::Ids(game) if game@.len() == 1 => drawing_players(creation, game@[0])(trace),
            _ => Run { outcome: Outcome::Mismatch(trace.at - 1), trace },
        }
}

/// Creating a game with valid seats draws its identity first.
proof fn creating_begins(creation: CreationView, trace: Trace)
    requires
        challenges::valid_seating(creation.users, creation.first),
    ensures
        creating(creation)(trace) == (if trace.spent() {
            Run { outcome: Outcome::Wait(Ask::FreshIds(1)), trace }
        } else {
            after_game(creation)(trace.reply(), trace.next())
        }),
{
    if !trace.spent() {
        if let Reply::Ids(game) = trace.reply() {
            if game@.len() == 1 {
                let seating = trace.next();
                if !seating.spent() {
                    if let Reply::Ids(players) = seating.reply() {
                        if players@.len() == creation.users.len() {
                            assert(after_players(creation, game@[0])(
                                seating.reply(),
                                seating.next(),
                            ) == pinning(creation, game@[0], players@)(seating.next()));
                        }
                    }
                }
            }
        }
    }
}

/// What holds of the replies behind a game's identity when the game was created.
#[verifier::opaque]
spec fn is_stored(
    creation: CreationView,
    game_id: GameId,
    replies: Seq<Reply>,
    store: Store,
    after: Store,
) -> bool {
    &&& replies.len() > 5 + creation.users.len()
    &&& game::millis_at(creation.now) is Some
    &&& script::reply_event(replies[3]) is Some
    &&& with_game(
        store,
        after,
        creation,
        game_id,
        drawn_players(replies),
        start_text(creation, replies),
        game::millis_at(creation.now)->0,
    )
}

/// A game whose dictionary was pinned stands in the store.
proof fn pinned_games_are_stored(
    creation: CreationView,
    game_id: GameId,
    named: GameId,
    replies: Seq<Reply>,
    store: Store,
)
    requires
        stages::underway(
            pinning(creation, game_id, drawn_players(replies)),
            replies,
            2,
            store,
            stages::anything(),
        ),
        pinning(creation, game_id, drawn_players(replies))(Trace { replies, at: 2 }).outcome
            == Outcome::<GameId, ChallengeError>::Done(named),
    ensures
        !(replies[2] is Refused),
        script::reply_accepted(replies[2]) is Some,
        named == game_id,
        is_stored(
            creation,
            game_id,
            replies,
            store,
            stages::stage_store(
                pinning(creation, game_id, drawn_players(replies)),
                replies,
                2,
                store,
                replies.len() as int,
            ),
        ),
{
    let fits = stages::anything();
    reveal(is_stored);
    let players = drawn_players(replies);
    let stage = pinning(creation, game_id, players);
    let pin = Ask::PinDictionary(challenges::pinned_dictionary());
    let pinned = after_pinning(creation, game_id, players);
    stages::asks_outside(stage, pin, pinned, replies, 2, store, fits);
    let last: Workflow<GameId, ChallengeError> = |trace: Trace| pinned(replies[2], trace);
    let next = dealing(creation, game_id, players);
    assert(!(replies[2] is Refused) && script::reply_accepted(replies[2]) is Some);
    assert forall|trace: Trace| #[trigger] last(trace) == next(trace) by {}
    assert(last =~= next);
    dealt_games_are_stored(creation, game_id, players, replies, store);
    start_names_the_game(creation, game_id, players, Trace { replies, at: 3 });
}

/// A game whose players were drawn stands in the store.
proof fn drawn_games_are_stored(
    creation: CreationView,
    game_id: GameId,
    named: GameId,
    replies: Seq<Reply>,
    store: Store,
)
    requires
        stages::underway(
            drawing_players(creation, game_id),
            replies,
            1,
            store,
            stages::anything(),
        ),
        drawing_players(creation, game_id)(Trace { replies, at: 1 }).outcome == Outcome::<
            GameId,
            ChallengeError,
        >::Done(named),
    ensures
        replies[1] is Ids,
        drawn_players(replies).len() == creation.users.len(),
        !(replies[2] is Refused),
        script::reply_accepted(replies[2]) is Some,
        named == game_id,
        is_stored(
            creation,
            game_id,
            replies,
            store,
            stages::stage_store(
                drawing_players(creation, game_id),
                replies,
                1,
                store,
                replies.len() as int,
            ),
        ),
{
    let fits = stages::anything();
    let stage = drawing_players(creation, game_id);
    let seated = after_players(creation, game_id);
    let ask = Ask::FreshIds(creation.users.len() as int);
    stages::asks_outside(stage, ask, seated, replies, 1, store, fits);
    assert(replies[1] is Ids && replies[1]->Ids_0@.len() == creation.users.len());
    let drawn: Workflow<GameId, ChallengeError> = |trace: Trace| seated(replies[1], trace);
    let next = pinning(creation, game_id, drawn_players(replies));
    assert forall|trace: Trace| #[trigger] drawn(trace) == next(trace) by {}
    assert(drawn =~= next);
    pinned_games_are_stored(creation, game_id, named, replies, store);
}

/// The rules engine is asked for a game of the players that were drawn.
proof fn start_is_asked_for(
    creation: CreationView,
    game_id: GameId,
    players: Seq<PlayerId>,
    cut: Seq<Reply>,
)
    requires
        challenges::valid_seating(creation.users, creation.first),
        cut.len() == 3,
        cut[0] matches Reply::Ids(game) && game@.len() == 1 && game@[0] == game_id,
        cut[1] matches Reply::Ids(drawn) && drawn@ == players && drawn@.len()
            == creation.users.len(),
        !(cut[2] is Refused),
        script::reply_accepted(cut[2]) is Some,
    ensures
        creating(creation)(Trace { replies: cut, at: 0 }).outcome == Outcome::<
            GameId,
            ChallengeError,
        >::Wait(Ask::Initialize(setup_of(creation, game_id, players))),
{
    let start = Trace { replies: cut, at: 0 };
    let one = Trace { replies: cut, at: 1 };
    let two = Trace { replies: cut, at: 2 };
    let three = Trace { replies: cut, at: 3 };
    creating_begins(creation, start);
    assert(start.next() == one && one.next() == two && two.next() == three);
    assert(start.reply() == cut[0] && one.reply() == cut[1] && two.reply() == cut[2]);
    assert(creating(creation)(start) == after_game(creation)(cut[0], one));
    assert(after_game(creation)(cut[0], one) == drawing_players(creation, game_id)(one));
    assert(drawing_players(creation, game_id)(one) == after_players(creation, game_id)(
        cut[1],
        two,
    ));
    assert(after_players(creation, game_id)(cut[1], two) == pinning(creation, game_id, players)(
        two,
    ));
    assert(pinning(creation, game_id, players)(two) == after_pinning(creation, game_id, players)(
        cut[2],
        three,
    ));
    assert(after_pinning(creation, game_id, players)(cut[2], three) == dealing(
        creation,
        game_id,
        players,
    )(three));
    dealing_begins(creation, game_id, players, three);
}

/// Of a workflow that draws a game's identity and goes on as a creation does.
proof fn named_games_are_stored(
    stage: Workflow<GameId, ChallengeError>,
    creation: CreationView,
    game_id: GameId,
    replies: Seq<Reply>,
    store: Store,
)
    requires
        forall|trace: Trace| #[trigger]
            stage(trace) == (if trace.spent() {
                Run { outcome: Outcome::Wait(Ask::FreshIds(1)), trace }
            } else {
                after_game(creation)(trace.reply(), trace.next())
            }),
        stages::underway(stage, replies, 0, store, stages::anything()),
        stage(Trace { replies, at: 0 }).outcome == Outcome::<GameId, ChallengeError>::Done(
            game_id,
        ),
    ensures
        replies[0] matches Reply::Ids(game) && game@.len() == 1 && game@[0] == game_id,
        replies[1] is Ids,
        drawn_players(replies).len() == creation.users.len(),
        !(replies[2] is Refused),
        script::reply_accepted(replies[2]) is Some,
        is_stored(
            creation,
            game_id,
            replies,
            store,
            stages::stage_store(stage, replies, 0, store, replies.len() as int),
        ),
{
    let fits = stages::anything();
    let named = after_game(creation);
    stages::asks_outside(stage, Ask::FreshIds(1), named, replies, 0, store, fits);
    let one = Trace { replies, at: 1 };
    assert(named(replies[0], one).outcome is Done);
    assert(replies[0] is Ids && replies[0]->Ids_0@.len() == 1);
    let game = replies[0]->Ids_0@[0];
    let first: Workflow<GameId, ChallengeError> = |trace: Trace| named(replies[0], trace);
    let next = drawing_players(creation, game);
    assert forall|trace: Trace| #[trigger] first(trace) == next(trace) by {}
    assert(first =~= next);
    drawn_games_are_stored(creation, game, game_id, replies, store);
}

/// A creation draws the game's identity first.
proof fn creating_goes_on(creation: CreationView)
    requires
        challenges::valid_seating(creation.users, creation.first),
    ensures
        forall|trace: Trace| #[trigger]
            creating(creation)(trace) == (if trace.spent() {
                Run { outcome: Outcome::Wait(Ask::FreshIds(1)), trace }
            } else {
                after_game(creation)(trace.reply(), trace.next())
            }),
{
    assert forall|trace: Trace| #[trigger] creating(creation)(trace) == (if trace.spent() {
        Run { outcome: Outcome::Wait(Ask::FreshIds(1)), trace }
    } else {
        after_game(creation)(trace.reply(), trace.next())
    }) by {
        creating_begins(creation, trace);
    }
}

/// What holds of a workflow that goes on as a creation does, once it has ended well.
proof fn creations_are_stored(
    stage: Workflow<GameId, ChallengeError>,
    creation: CreationView,
    game_id: GameId,
    replies: Seq<Reply>,
    store: Store,
)
    requires
        forall|trace: Trace| #[trigger]
            stage(trace) == (if trace.spent() {
                Run { outcome: Outcome::Wait(Ask::FreshIds(1)), trace }
            } else {
                after_game(creation)(trace.reply(), trace.next())
            }),
        model::served(stage, replies, store),
        model::ending(stage, replies) == Outcome::<GameId, ChallengeError>::Done(game_id),
    ensures
        replies[0] matches Reply::Ids(game) && game@.len() == 1 && game@[0] == game_id,
        replies[1] is Ids,
        drawn_players(replies).len() == creation.users.len(),
        !(replies[2] is Refused),
        script::reply_accepted(replies[2]) is Some,
        is_stored(
            creation,
            game_id,
            replies,
            store,
            model::store_after(stage, replies, store),
        ),
{
    stages::whole_is_underway(stage, replies, store, stages::anything());
    stages::whole_leaves(stage, replies, store);
    named_games_are_stored(stage, creation, game_id, replies, store);
}

/// A creation with invalid seats does not end well.
proof fn seats_are_valid(creation: CreationView, trace: Trace)
    requires
        creating(creation)(trace).outcome is Done,
    ensures
        challenges::valid_seating(creation.users, creation.first),
{
}

/// What holds of a creation that ended well.
proof fn creation_is_stored(
    creation: CreationView,
    replies: Seq<Reply>,
    store: Store,
    game_id: GameId,
)
    requires
        model::served(creating(creation), replies, store),
        model::ending(creating(creation), replies) == Outcome::<GameId, ChallengeError>::Done(
            game_id,
        ),
    ensures
        challenges::valid_seating(creation.users, creation.first),
        replies[0] matches Reply::Ids(game) && game@.len() == 1 && game@[0] == game_id,
        replies[1] is Ids,
        drawn_players(replies).len() == creation.users.len(),
        !(replies[2] is Refused),
        script::reply_accepted(replies[2]) is Some,
        is_stored(
            creation,
            game_id,
            replies,
            store,
            model::store_after(creating(creation), replies, store),
        ),
{
    seats_are_valid(creation, Trace { replies, at: 0 });
    creating_goes_on(creation);
    creations_are_stored(creating(creation), creation, game_id, replies, store);
}

/// A game that was created stands in the store as it was dealt: with a seat for each of its
/// users, in their order, under its rules, at its first revision, with the start as its only
/// event.
pub proof fn created_games_are_stored(
    creation: CreationView,
    replies: Seq<Reply>,
    store: Store,
    game_id: GameId,
)
    requires
        model::served(creating(creation), replies, store),
        model::ending(creating(creation), replies) == Outcome::<GameId, ChallengeError>::Done(
            game_id,
        ),
    ensures
        challenges::valid_seating(creation.users, creation.first),
        drawn_players(replies).len() == creation.users.len(),
        replies.len() > 5 + creation.users.len(),
        game::millis_at(creation.now) is Some,
        script::reply_event(replies[3]) is Some,
        with_game(
            store,
            model::store_after(creating(creation), replies, store),
            creation,
            game_id,
            drawn_players(replies),
            start_text(creation, replies),
            game::millis_at(creation.now)->0,
        ),
{
    creation_is_stored(creation, replies, store, game_id);
    reveal(is_stored);
}

/// The third request of a creation with these replies is for the start.
proof fn start_is_dealt(
    creation: CreationView,
    replies: Seq<Reply>,
    store: Store,
    game_id: GameId,
    after: Store,
)
    requires
        challenges::valid_seating(creation.users, creation.first),
        replies[0] matches Reply::Ids(game) && game@.len() == 1 && game@[0] == game_id,
        replies[1] is Ids,
        drawn_players(replies).len() == creation.users.len(),
        !(replies[2] is Refused),
        script::reply_accepted(replies[2]) is Some,
        is_stored(creation, game_id, replies, store, after),
    ensures
        model::asked(creating(creation), replies, 3) == Some(
            Ask::Initialize(setup_of(creation, game_id, drawn_players(replies))),
        ),
{
    assert(replies.len() > 3) by {
        reveal(is_stored);
    }
    let cut = replies.take(3);
    assert(cut[0] == replies[0] && cut[1] == replies[1] && cut[2] == replies[2]);
    start_is_asked_for(creation, game_id, drawn_players(replies), cut);
}

/// The start of a game that was created was dealt for the players that were drawn, in seat order,
/// with the player of the chosen seat first, under the game's rules.
pub proof fn created_games_are_dealt_for_their_players(
    creation: CreationView,
    replies: Seq<Reply>,
    store: Store,
    game_id: GameId,
)
    requires
        model::served(creating(creation), replies, store),
        model::ending(creating(creation), replies) == Outcome::<GameId, ChallengeError>::Done(
            game_id,
        ),
    ensures
        model::asked(creating(creation), replies, 3) == Some(
            Ask::Initialize(setup_of(creation, game_id, drawn_players(replies))),
        ),
{
    creation_is_stored(creation, replies, store, game_id);
    start_is_dealt(
        creation,
        replies,
        store,
        game_id,
        model::store_after(creating(creation), replies, store),
    );
}

/// Whether a store knows nothing of a game.
pub open spec fn no_game(store: Store, game_id: GameId) -> bool {
    &&& forall|i: int|
        0 <= i < store.rows("game_players"@).len() ==> !journal_laws::of_game(
            #[trigger] store.rows("game_players"@)[i],
            game_id,
        )
    &&& forall|i: int|
        0 <= i < store.rows("game_journal"@).len() ==> !journal_laws::of_game(
            #[trigger] store.rows("game_journal"@)[i],
            game_id,
        )
    &&& forall|i: int|
        0 <= i < store.rows("game_snapshots"@).len() ==> !journal_laws::of_game(
            #[trigger] store.rows("game_snapshots"@)[i],
            game_id,
        )
}

/// The row of a start holds it.
proof fn start_record_holds(
    game_id: GameId,
    key: Seq<char>,
    payload: Seq<char>,
    event_of: EventReader,
)
    ensures
        ({
            let record = model::assigned(
                Map::empty(),
                challenges::insert_start_op(game_id, key, payload).values,
            );
            &&& journal_laws::of_game(record, game_id)
            &&& recovery_laws::holds_event(record, 1, event_of(3, payload), event_of)
        }),
{
    let values = challenges::insert_start_op(game_id, key, payload).values;
    reveal_strlit("event_id");
    reveal_strlit("game_id");
    reveal_strlit("revision");
    reveal_strlit("command_id");
    reveal_strlit("idempotency_key");
    reveal_strlit("payload_version");
    reveal_strlit("payload");
    assert("event_id"@.len() == 8 && "event_id"@[0] == 'e');
    assert("game_id"@.len() == 7 && "game_id"@[0] == 'g');
    assert("revision"@.len() == 8 && "revision"@[0] == 'r');
    assert("command_id"@.len() == 10);
    assert("idempotency_key"@.len() == 15 && "idempotency_key"@[0] == 'i');
    assert("payload_version"@.len() == 15 && "payload_version"@[0] == 'p');
    assert("payload"@.len() == 7 && "payload"@[0] == 'p');
    assert(values.len() == 7);
    model::assigned_sets(Map::empty(), values, 1);
    model::assigned_sets(Map::empty(), values, 2);
    model::assigned_sets(Map::empty(), values, 3);
    model::assigned_sets(Map::empty(), values, 4);
    model::assigned_sets(Map::empty(), values, 5);
    model::assigned_sets(Map::empty(), values, 6);
}

/// Finding the player of a user.
pub open spec fn finding_player(game_id: GameId, user_id: Seq<char>) -> Workflow<
    PlayerId,
    GameServiceError,
> {
    |trace: Trace| game_service::player_for_user_run(trace, game_id, user_id)
}

/// What the row of a seat holds.
proof fn seat_record_holds(
    game_id: GameId,
    players: Seq<PlayerId>,
    users: Seq<Seq<char>>,
    seat: int,
)
    ensures
        ({
            let record = seat_record(game_id, players, users, seat);
            &&& journal_laws::of_game(record, game_id)
            &&& model::datum_in(record, "user_id"@) == Datum::Text(users[seat])
            &&& model::datum_in(record, "game_player_id"@) == Datum::Text(
                ids::id_text_of(players[seat]),
            )
        }),
{
    let values = challenges::insert_player_op(game_id, players[seat], users[seat], seat).values;
    reveal_strlit("game_player_id");
    reveal_strlit("game_id");
    reveal_strlit("user_id");
    reveal_strlit("seat");
    assert("game_player_id"@.len() == 14);
    assert("game_id"@.len() == 7 && "game_id"@[0] == 'g');
    assert("user_id"@.len() == 7 && "user_id"@[0] == 'u');
    assert("seat"@.len() == 4);
    assert(values.len() == 4);
    model::assigned_sets(Map::empty(), values, 0);
    model::assigned_sets(Map::empty(), values, 1);
    model::assigned_sets(Map::empty(), values, 2);
}

/// Every user of a stored game is found in their seat.
proof fn seat_is_found(
    creation: CreationView,
    game_id: GameId,
    players: Seq<PlayerId>,
    payload: Seq<char>,
    now_ms: i64,
    store: Store,
    after: Store,
    seat: int,
    later_replies: Seq<Reply>,
)
    requires
        no_game(store, game_id),
        with_game(store, after, creation, game_id, players, payload, now_ms),
        creation.users.no_duplicates(),
        0 <= seat < creation.users.len(),
        model::served(finding_player(game_id, creation.users[seat]), later_replies, after),
        !(model::ending(finding_player(game_id, creation.users[seat]), later_replies) is Wait),
    ensures
        model::ending(finding_player(game_id, creation.users[seat]), later_replies) == Outcome::<
            PlayerId,
            GameServiceError,
        >::Done(players[seat]),
{
    let fits = stages::anything();
    let users = creation.users;
    let stage = finding_player(game_id, users[seat]);
    let op = Op::select("game_players"@).where_text("game_id"@, ids::id_text_of(game_id)).where_text(
        "user_id"@,
        users[seat],
    );
    let rest = |rows: Seq<Row>, trace: Trace|
        match store::first_text_of(rows, "game_player_id"@) {
            None => script::fail(trace, GameServiceError::Unauthorized),
            Some(player) => match ids::parsed_id(player) {
                None => script::fail(trace, GameServiceError::MalformedIdentity),
                Some(player) => script::done(trace, player),
            },
        };
    assert forall|trace: Trace| #[trigger] stage(trace) == script::query(trace, op, rest) by {}
    stages::whole_is_underway(stage, later_replies, after, fits);
    let rows = stages::asks_store(stage, op, rest, later_replies, 0, after, fits);
    let earlier = store.rows("game_players"@);
    let added = seat_records(game_id, players, users, users.len() as int);
    let hits = model::found(after.rows("game_players"@), op.filters);
    model::found_rows(after.rows("game_players"@), op.filters);
    seat_record_holds(game_id, players, users, seat);
    let place = earlier.len() + seat;
    assert(after.rows("game_players"@)[place] == added[seat]);
    assert(model::meets_all(after.rows("game_players"@)[place], op.filters)) by {
        assert forall|k: int| 0 <= k < op.filters.len() implies model::meets(
            added[seat],
            #[trigger] op.filters[k],
        ) by {
            assert(k == 0 || k == 1);
        }
    }
    assert(hits.len() > 0);
    assert(model::meets_all(hits[0], op.filters));
    assert(model::meets(hits[0], op.filters[0]) && model::meets(hits[0], op.filters[1]));
    let at = choose|at: int|
        0 <= at < after.rows("game_players"@).len() && after.rows("game_players"@)[at] == hits[0];
    if at < earlier.len() {
        assert(!journal_laws::of_game(earlier[at], game_id));
    }
    let other = at - earlier.len();
    assert(added[other] == hits[0]);
    seat_record_holds(game_id, players, users, other);
    assert(users[other] == users[seat]);
    assert(other == seat);
    model::shown_values(rows[0], hits[0], "game_player_id"@);
    ids::written_ids_are_read(players[seat]);
}

/// A stored game is recovered from its start.
proof fn start_is_recovered(
    creation: CreationView,
    game_id: GameId,
    players: Seq<PlayerId>,
    payload: Seq<char>,
    now_ms: i64,
    store: Store,
    after: Store,
    event_of: EventReader,
    state_of: StateReader,
    engine: Engine,
    later_replies: Seq<Reply>,
)
    requires
        no_game(store, game_id),
        with_game(store, after, creation, game_id, players, payload, now_ms),
        model::served(recovery_laws::recovering(game_id), later_replies, after),
        stages::met(
            recovery_laws::recovering(game_id),
            later_replies,
            recovery_laws::read_and_applied(event_of, state_of, engine),
        ),
        !(model::ending(recovery_laws::recovering(game_id), later_replies) is Wait),
    ensures
        model::ending(recovery_laws::recovering(game_id), later_replies) == Outcome::<
            GameState,
            JournalError,
        >::Done(engine(None, event_of(3, payload))),
{
    let events = seq![event_of(3, payload)];
    let filters = recovery_laws::game_filter(game_id);
    start_record_holds(game_id, creation.key, payload, event_of);
    let record = model::assigned(
        Map::empty(),
        challenges::insert_start_op(game_id, creation.key, payload).values,
    );
    let earlier = store.rows("game_journal"@);
    assert forall|i: int| 0 <= i < earlier.len() implies !model::meets(
        #[trigger] earlier[i],
        filters[0],
    ) by {
        assert(!journal_laws::of_game(earlier[i], game_id));
    }
    assert(model::meets_all(record, filters)) by {
        assert(model::meets(record, filters[0]));
    }
    crate::invitation_laws::only_the_new_row_is_found(earlier, record, filters, 0);
    assert(recovery_laws::journal_of(after, game_id) == seq![record]);
    assert(recovery_laws::journal_holds(after, game_id, events, event_of));
    assert(recovery_laws::snapshots_hold(after, game_id, events, state_of, engine)) by {
        assert(after.rows("game_snapshots"@) == store.rows("game_snapshots"@));
    }
    recovery_laws::games_are_recovered(
        game_id,
        events,
        event_of,
        state_of,
        engine,
        after,
        later_replies,
    );
    assert(events.drop_last() =~= Seq::empty());
    assert(journal_laws::replayed(engine, None, events.drop_last()) == None::<GameState>);
}

/// Every user of a created game is found in the seat that was drawn for them.
///
/// The game's identity is drawn at random; it is taken to be new.
pub proof fn created_seats_are_found(
    creation: CreationView,
    replies: Seq<Reply>,
    store: Store,
    game_id: GameId,
    seat: int,
    later_replies: Seq<Reply>,
)
    requires
        no_game(store, game_id),
        model::served(creating(creation), replies, store),
        model::ending(creating(creation), replies) == Outcome::<GameId, ChallengeError>::Done(
            game_id,
        ),
        0 <= seat < creation.users.len(),
        model::served(
            finding_player(game_id, creation.users[seat]),
            later_replies,
            model::store_after(creating(creation), replies, store),
        ),
        !(model::ending(finding_player(game_id, creation.users[seat]), later_replies) is Wait),
    ensures
        model::ending(finding_player(game_id, creation.users[seat]), later_replies) == Outcome::<
            PlayerId,
            GameServiceError,
        >::Done(drawn_players(replies)[seat]),
{
    created_games_are_stored(creation, replies, store, game_id);
    seat_is_found(
        creation,
        game_id,
        drawn_players(replies),
        start_text(creation, replies),
        game::millis_at(creation.now)->0,
        store,
        model::store_after(creating(creation), replies, store),
        seat,
        later_replies,
    );
}

/// A game that was created is recovered as what the rules engine makes of the start that it dealt,
/// where the text in which the start was written is read as it.
///
/// The game's identity is drawn at random; it is taken to be new.
pub proof fn created_games_are_recovered(
    creation: CreationView,
    replies: Seq<Reply>,
    store: Store,
    game_id: GameId,
    event_of: EventReader,
    state_of: StateReader,
    engine: Engine,
    later_replies: Seq<Reply>,
)
    requires
        no_game(store, game_id),
        model::served(creating(creation), replies, store),
        model::ending(creating(creation), replies) == Outcome::<GameId, ChallengeError>::Done(
            game_id,
        ),
        event_of(3, start_text(creation, replies)) == dealt(replies),
        model::served(
            recovery_laws::recovering(game_id),
            later_replies,
            model::store_after(creating(creation), replies, store),
        ),
        stages::met(
            recovery_laws::recovering(game_id),
            later_replies,
            recovery_laws::read_and_applied(event_of, state_of, engine),
        ),
        !(model::ending(recovery_laws::recovering(game_id), later_replies) is Wait),
    ensures
        script::reply_event(replies[3]) == Some(dealt(replies)),
        model::ending(recovery_laws::recovering(game_id), later_replies) == Outcome::<
            GameState,
            JournalError,
        >::Done(engine(None, dealt(replies))),
{
    created_games_are_stored(creation, replies, store, game_id);
    start_is_recovered(
        creation,
        game_id,
        drawn_players(replies),
        start_text(creation, replies),
        game::millis_at(creation.now)->0,
        store,
        model::store_after(creating(creation), replies, store),
        event_of,
        state_of,
        engine,
        later_replies,
    );
}

} // verus!
