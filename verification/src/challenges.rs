//! Private direct challenges and exactly-once game creation.
use crate::game::{
    self, timestamp_ms, GameEvent, GameId, GameState, PlayerId, RuleProfile, Timestamp,
};
use crate::ids::{self, id_text};
use crate::journal::{self, canonical_events, load_events, EventRecord, JournalError};
use crate::projections::{self, project_game, ProjectionError};
use crate::script::{
    self, Ask, DictionaryPin, GameSetup, PinView, Reply, Request, Run, Script, SetupView, Stop,
    Trace,
};
use crate::store::{signed, Direction, Op, Row, Statement};
use crate::text::{self, colon_joined, joined, same_text};
use vstd::prelude::*;

verus! {

/// Durable direct challenge status.
#[derive(Debug, Clone, Copy, PartialEq, Eq, Structural)]
pub enum ChallengeStatus {
    Pending,
    Accepted,
    Declined,
    Cancelled,
}

impl ChallengeStatus {
    pub open spec fn name(self) -> Seq<char> {
        match self {
            ChallengeStatus::Pending => "PENDING"@,
            ChallengeStatus::Accepted => "ACCEPTED"@,
            ChallengeStatus::Declined => "DECLINED"@,
            ChallengeStatus::Cancelled => "CANCELLED"@,
        }
    }

    pub fn as_str(self) -> (name: &'static str)
        ensures
            name@ == self.name(),
    {
        match self {
            ChallengeStatus::Pending => "PENDING",
            ChallengeStatus::Accepted => "ACCEPTED",
            ChallengeStatus::Declined => "DECLINED",
            ChallengeStatus::Cancelled => "CANCELLED",
        }
    }
}

/// No other status goes by the name of a pending challenge.
pub proof fn status_names_differ(status: ChallengeStatus)
    ensures
        status.name() == ChallengeStatus::Pending.name() ==> status == ChallengeStatus::Pending,
{
    reveal_strlit("PENDING");
    reveal_strlit("ACCEPTED");
    reveal_strlit("DECLINED");
    reveal_strlit("CANCELLED");
    assert("PENDING"@.len() == 7);
    assert("ACCEPTED"@.len() == 8);
    assert("DECLINED"@.len() == 8);
    assert("CANCELLED"@.len() == 9);
}

/// Challenge lifecycle failure.
#[derive(Debug, Clone, PartialEq, Eq)]
pub enum ChallengeError {
    /// The input, or a stored row, is invalid.
    Invalid,
    /// The same challenge is already pending.
    Duplicate,
    /// The challenge is unknown, resolved, or someone else's.
    Unauthorized,
    /// The pinned word list is invalid.
    Compatibility,
    /// The rules could not be generated.
    Rules(String),
    /// The game could not be dealt.
    Initialization(String),
    /// The start event could not be written.
    Serialization(String),
    /// The start event could not be applied.
    Replay(String),
    Journal(JournalError),
    Projection(ProjectionError),
}

impl ChallengeError {
    /// The error in words; an outside error is told in its own.
    pub open spec fn message_of(self) -> Seq<char> {
        match self {
            ChallengeError::Invalid => "challenge input is invalid"@,
            ChallengeError::Duplicate => "a pending challenge already exists"@,
            ChallengeError::Unauthorized => "challenge is unknown, resolved, or unauthorized"@,
            ChallengeError::Compatibility => "pinned compatibility data is invalid"@,
            ChallengeError::Rules(reason) => reason@,
            ChallengeError::Initialization(reason) => reason@,
            ChallengeError::Serialization(reason) => reason@,
            ChallengeError::Replay(reason) => reason@,
            ChallengeError::Journal(error) => error.message_of(),
            ChallengeError::Projection(error) => error.message_of(),
        }
    }

    pub fn message(self) -> (message: String)
        ensures
            message@ == self.message_of(),
    {
        match self {
            ChallengeError::Invalid => "challenge input is invalid".to_owned(),
            ChallengeError::Duplicate => "a pending challenge already exists".to_owned(),
            ChallengeError::Unauthorized => "challenge is unknown, resolved, or unauthorized".to_owned(),
            ChallengeError::Compatibility => "pinned compatibility data is invalid".to_owned(),
            ChallengeError::Rules(reason) => reason,
            ChallengeError::Initialization(reason) => reason,
            ChallengeError::Serialization(reason) => reason,
            ChallengeError::Replay(reason) => reason,
            ChallengeError::Journal(error) => error.message(),
            ChallengeError::Projection(error) => error.message(),
        }
    }
}

/// What the players of a game may see of the bag.
#[derive(Debug, Clone, Copy, PartialEq, Eq, Structural)]
pub struct GameVisibilitySettings {
    pub show_remaining_tile_count: bool,
    pub show_remaining_tile_faces: bool,
}

impl GameVisibilitySettings {
    pub open spec fn hidden() -> GameVisibilitySettings {
        GameVisibilitySettings {
            show_remaining_tile_count: false,
            show_remaining_tile_faces: false,
        }
    }
}

impl Default for GameVisibilitySettings {
    fn default() -> (settings: GameVisibilitySettings)
        ensures
            settings == GameVisibilitySettings::hidden(),
    {
        GameVisibilitySettings {
            show_remaining_tile_count: false,
            show_remaining_tile_faces: false,
        }
    }
}

fn journal_stop<'a>(stop: Stop<'a, JournalError>) -> (wrapped: Stop<'a, ChallengeError>)
    ensures
        wrapped == (match stop {
            Stop::Wait(request) => Stop::Wait(request),
            Stop::Failed(number) => Stop::Failed(number),
            Stop::Mismatch(number) => Stop::Mismatch(number),
            Stop::Fail(error) => Stop::Fail(ChallengeError::Journal(error)),
        }),
{
    match stop {
        Stop::Wait(request) => Stop::Wait(request),
        Stop::Failed(number) => Stop::Failed(number),
        Stop::Mismatch(number) => Stop::Mismatch(number),
        Stop::Fail(error) => Stop::Fail(ChallengeError::Journal(error)),
    }
}

fn projection_stop<'a>(stop: Stop<'a, ProjectionError>) -> (wrapped: Stop<'a, ChallengeError>)
    ensures
        wrapped == (match stop {
            Stop::Wait(request) => Stop::Wait(request),
            Stop::Failed(number) => Stop::Failed(number),
            Stop::Mismatch(number) => Stop::Mismatch(number),
            Stop::Fail(error) => Stop::Fail(ChallengeError::Projection(error)),
        }),
{
    match stop {
        Stop::Wait(request) => Stop::Wait(request),
        Stop::Failed(number) => Stop::Failed(number),
        Stop::Mismatch(number) => Stop::Mismatch(number),
        Stop::Fail(error) => Stop::Fail(ChallengeError::Projection(error)),
    }
}

/// The pending challenges from one user to another.
pub open spec fn pending_pair_op(challenger: Seq<char>, challenged: Seq<char>) -> Op {
    Op::select("challenges"@)
        .where_text("challenger_user_id"@, challenger)
        .where_text("challenged_user_id"@, challenged)
        .where_text("status"@, ChallengeStatus::Pending.name())
}

pub open spec fn insert_challenge_op(
    id: Seq<char>,
    challenger: Seq<char>,
    challenged: Seq<char>,
    now_ms: i64,
) -> Op {
    Op::insert("challenges"@)
        .text("challenge_id"@, id)
        .text("challenger_user_id"@, challenger)
        .text("challenged_user_id"@, challenged)
        .text("status"@, ChallengeStatus::Pending.name())
        .integer("created_at_ms"@, now_ms as int)
        .integer("updated_at_ms"@, now_ms as int)
}

/// Create a pending challenge between two different users who have none pending this way.
pub open spec fn create_challenge_run(
    trace: Trace,
    challenger: Seq<char>,
    challenged: Seq<char>,
    now: Timestamp,
) -> Run<Seq<char>, ChallengeError> {
    if challenger == challenged {
        script::fail(trace, ChallengeError::Invalid)
    } else {
        script::query(
            trace,
            pending_pair_op(challenger, challenged),
            |existing: Seq<Row>, trace: Trace|
                if existing.len() > 0 {
                    script::fail(trace, ChallengeError::Duplicate)
                } else {
                    script::draw(
                        trace,
                        1,
                        |drawn: Seq<u128>, trace: Trace|
                            match game::millis_at(now) {
                                None => script::fail(trace, ChallengeError::Invalid),
                                Some(now_ms) => script::perform(
                                    trace,
                                    insert_challenge_op(
                                        ids::id_text_of(drawn[0]),
                                        challenger,
                                        challenged,
                                        now_ms,
                                    ),
                                    |trace: Trace|
                                        script::done(trace, ids::id_text_of(drawn[0])),
                                ),
                            },
                    )
                },
        )
    }
}

/// Creates one pending challenge between distinct users.
pub fn create_challenge<'a>(
    script: &mut Script<'a>,
    challenger_user_id: &str,
    challenged_user_id: &str,
    now: Timestamp,
) -> (created: Result<String, Stop<'a, ChallengeError>>)
    ensures
        script::ran(created, final(script)@, |id: String| id@) == create_challenge_run(
            old(script)@,
            challenger_user_id@,
            challenged_user_id@,
            now,
        ),
{
    if same_text(challenger_user_id, challenged_user_id) {
        return Err(Stop::Fail(ChallengeError::Invalid));
    }
    let existing = script.query(
        Statement::select("challenges")
            .where_text("challenger_user_id", challenger_user_id)
            .where_text("challenged_user_id", challenged_user_id)
            .where_text("status", ChallengeStatus::Pending.as_str()),
    )?;
    if existing.len() > 0 {
        return Err(Stop::Fail(ChallengeError::Duplicate));
    }
    let drawn = script.draw(1)?;
    let id: String = id_text(drawn[0]);
    let now_ms: i64 = match timestamp_ms(now) {
        Some(now_ms) => now_ms,
        None => return Err(Stop::Fail(ChallengeError::Invalid)),
    };
    script.perform(
        Statement::insert("challenges")
            .text("challenge_id", id.as_str())
            .text("challenger_user_id", challenger_user_id)
            .text("challenged_user_id", challenged_user_id)
            .text("status", ChallengeStatus::Pending.as_str())
            .integer("created_at_ms", now_ms)
            .integer("updated_at_ms", now_ms),
    )?;
    Ok(id)
}

pub open spec fn resolve_op(
    challenge_id: Seq<char>,
    owner_column: Seq<char>,
    owner: Seq<char>,
    status: ChallengeStatus,
    now_ms: i64,
) -> Op {
    Op::update("challenges"@)
        .text("status"@, status.name())
        .integer("updated_at_ms"@, now_ms as int)
        .where_text("challenge_id"@, challenge_id)
        .where_text(owner_column, owner)
        .where_text("status"@, ChallengeStatus::Pending.name())
}

/// Resolve a pending challenge that the user owns on the given side.
pub open spec fn resolve_run(
    trace: Trace,
    challenge_id: Seq<char>,
    owner_column: Seq<char>,
    owner: Seq<char>,
    status: ChallengeStatus,
    now: Timestamp,
) -> Run<(), ChallengeError> {
    match game::millis_at(now) {
        None => script::fail(trace, ChallengeError::Invalid),
        Some(now_ms) => script::query(
            trace,
            resolve_op(challenge_id, owner_column, owner, status, now_ms),
            |updated: Seq<Row>, trace: Trace|
                if updated.len() != 1 {
                    script::fail(trace, ChallengeError::Unauthorized)
                } else {
                    script::done(trace, ())
                },
        ),
    }
}

fn update_status<'a>(
    script: &mut Script<'a>,
    challenge_id: &str,
    owner_column: &'static str,
    owner_id: &str,
    status: ChallengeStatus,
    now: Timestamp,
) -> (resolved: Result<(), Stop<'a, ChallengeError>>)
    ensures
        script::ran(resolved, final(script)@, |resolved: ()| resolved) == resolve_run(
            old(script)@,
            challenge_id@,
            owner_column@,
            owner_id@,
            status,
            now,
        ),
{
    let now_ms: i64 = match timestamp_ms(now) {
        Some(now_ms) => now_ms,
        None => return Err(Stop::Fail(ChallengeError::Invalid)),
    };
    let updated = script.query(
        Statement::update("challenges")
            .text("status", status.as_str())
            .integer("updated_at_ms", now_ms)
            .where_text("challenge_id", challenge_id)
            .where_text(owner_column, owner_id)
            .where_text("status", ChallengeStatus::Pending.as_str()),
    )?;
    if updated.len() != 1 {
        return Err(Stop::Fail(ChallengeError::Unauthorized));
    }
    Ok(())
}

/// Decline a pending challenge as the user whom it was sent to.
pub open spec fn decline_run(
    trace: Trace,
    challenge_id: Seq<char>,
    challenged: Seq<char>,
    now: Timestamp,
) -> Run<(), ChallengeError> {
    resolve_run(
        trace,
        challenge_id,
        "challenged_user_id"@,
        challenged,
        ChallengeStatus::Declined,
        now,
    )
}

/// Cancel a pending challenge as the user who has sent it.
pub open spec fn cancel_run(
    trace: Trace,
    challenge_id: Seq<char>,
    challenger: Seq<char>,
    now: Timestamp,
) -> Run<(), ChallengeError> {
    resolve_run(
        trace,
        challenge_id,
        "challenger_user_id"@,
        challenger,
        ChallengeStatus::Cancelled,
        now,
    )
}

/// Declines a pending challenge as its recipient.
pub fn decline_challenge<'a>(
    script: &mut Script<'a>,
    challenge_id: &str,
    challenged_user_id: &str,
    now: Timestamp,
) -> (declined: Result<(), Stop<'a, ChallengeError>>)
    ensures
        script::ran(declined, final(script)@, |declined: ()| declined) == decline_run(
            old(script)@,
            challenge_id@,
            challenged_user_id@,
            now,
        ),
{
    update_status(
        script,
        challenge_id,
        "challenged_user_id",
        challenged_user_id,
        ChallengeStatus::Declined,
        now,
    )
}

/// Cancels a pending challenge as its creator.
pub fn cancel_challenge<'a>(
    script: &mut Script<'a>,
    challenge_id: &str,
    challenger_user_id: &str,
    now: Timestamp,
) -> (cancelled: Result<(), Stop<'a, ChallengeError>>)
    ensures
        script::ran(cancelled, final(script)@, |cancelled: ()| cancelled) == cancel_run(
            old(script)@,
            challenge_id@,
            challenger_user_id@,
            now,
        ),
{
    update_status(
        script,
        challenge_id,
        "challenger_user_id",
        challenger_user_id,
        ChallengeStatus::Cancelled,
        now,
    )
}

/// The word list of new games.
pub open spec fn pinned_dictionary() -> PinView {
    PinView {
        id: "enable1-en"@,
        version: 1,
        checksum: "sha256:3f16130220645692ed49c7134e24a18504c2ca55b3c012f7290e3e77c63b1a89"@,
    }
}

fn dictionary_pin() -> (pin: DictionaryPin)
    ensures
        pin@ == pinned_dictionary(),
{
    DictionaryPin {
        id: "enable1-en",
        version: 1,
        checksum: "sha256:3f16130220645692ed49c7134e24a18504c2ca55b3c012f7290e3e77c63b1a89",
    }
}

/// What is fixed about a game that is being created.
pub struct CreationView {
    pub users: Seq<Seq<char>>,
    pub first: int,
    pub rules: RuleProfile,
    pub now: Timestamp,
    pub seed: u64,
    pub key: Seq<char>,
    pub visibility: GameVisibilitySettings,
}

/// Whether the users of a new game and its first player are valid.
pub open spec fn valid_seating(users: Seq<Seq<char>>, first: int) -> bool {
    users.len() >= 2 && users.no_duplicates() && first < users.len()
}

pub open spec fn flag(value: bool) -> int {
    if value {
        1
    } else {
        0
    }
}

pub open spec fn insert_game_op(
    creation: CreationView,
    game_id: GameId,
    now_ms: i64,
) -> Op {
    Op::insert("games"@)
        .text("game_id"@, ids::id_text_of(game_id))
        .text("rules_id"@, creation.rules.reference.id@)
        .integer("rules_version"@, creation.rules.reference.version as int)
        .text("dictionary_id"@, pinned_dictionary().id)
        .integer("dictionary_version"@, 1)
        .text("dictionary_checksum"@, pinned_dictionary().checksum)
        .integer("canonical_revision"@, 1)
        .text("status"@, "ACTIVE"@)
        .integer("show_remaining_tile_count"@, flag(creation.visibility.show_remaining_tile_count))
        .integer("show_remaining_tile_faces"@, flag(creation.visibility.show_remaining_tile_faces))
        .integer("created_at_ms"@, now_ms as int)
        .integer("updated_at_ms"@, now_ms as int)
}

pub open spec fn insert_player_op(
    game_id: GameId,
    player: PlayerId,
    user: Seq<char>,
    seat: int,
) -> Op {
    Op::insert("game_players"@)
        .text("game_player_id"@, ids::id_text_of(player))
        .text("game_id"@, ids::id_text_of(game_id))
        .text("user_id"@, user)
        .integer("seat"@, seat)
}

/// Seat the users from `seat` on.
pub open spec fn seat_users_run(
    trace: Trace,
    game_id: GameId,
    players: Seq<PlayerId>,
    users: Seq<Seq<char>>,
    seat: int,
) -> Run<(), ChallengeError>
    decreases users.len() - seat,
{
    if seat >= users.len() {
        script::done(trace, ())
    } else if seat > i64::MAX {
        script::fail(trace, ChallengeError::Invalid)
    } else {
        script::perform(
            trace,
            insert_player_op(game_id, players[seat], users[seat], seat),
            |trace: Trace| seat_users_run(trace, game_id, players, users, seat + 1),
        )
    }
}

fn seat_users<'a>(
    script: &mut Script<'a>,
    game_id: GameId,
    players: &Vec<PlayerId>,
    user_ids: &Vec<String>,
) -> (seated: Result<(), Stop<'a, ChallengeError>>)
    requires
        players@.len() == user_ids@.len(),
    ensures
        script::ran(seated, final(script)@, |seated: ()| seated) == seat_users_run(
            old(script)@,
            game_id,
            players@,
            text::texts_view(user_ids@),
            0,
        ),
{
    let ghost users = text::texts_view(user_ids@);
    let game: String = id_text(game_id);
    let mut seat: usize = 0;
    while seat < user_ids.len()
        invariant
            seat <= user_ids@.len(),
            players@.len() == user_ids@.len(),
            users == text::texts_view(user_ids@),
            game@ == ids::id_text_of(game_id),
            seat_users_run(old(script)@, game_id, players@, users, 0) == seat_users_run(
                script@,
                game_id,
                players@,
                users,
                seat as int,
            ),
        decreases user_ids@.len() - seat,
    {
        assert(users[seat as int] == user_ids@[seat as int]@);
        let stored: i64 = match signed(seat as u64) {
            Some(stored) => stored,
            None => return Err(Stop::Fail(ChallengeError::Invalid)),
        };
        script.perform(
            Statement::insert("game_players")
                .text("game_player_id", id_text(players[seat]).as_str())
                .text("game_id", game.as_str())
                .text("user_id", user_ids[seat].as_str())
                .integer("seat", stored),
        )?;
        seat = seat + 1;
    }
    Ok(())
}

pub open spec fn insert_start_op(game_id: GameId, key: Seq<char>, payload: Seq<char>) -> Op {
    let game = ids::id_text_of(game_id);
    Op::insert("game_journal"@)
        .text("event_id"@, text::colon_pair(game, "1"@))
        .text("game_id"@, game)
        .integer("revision"@, 1)
        .text("command_id"@, key)
        .text("idempotency_key"@, key)
        .integer("payload_version"@, 3)
        .text("payload"@, payload)
}

pub open spec fn insert_start_command_op(game_id: GameId, key: Seq<char>) -> Op {
    let game = ids::id_text_of(game_id);
    Op::insert("game_commands"@)
        .text("game_command_id"@, text::colon_pair(game, key))
        .text("game_id"@, game)
        .text("command_id"@, key)
        .text("idempotency_key"@, key)
        .integer("expected_revision"@, 0)
        .integer("resulting_revision"@, 1)
}

/// Record the start event and the command that caused it.
pub open spec fn record_start_run(
    trace: Trace,
    game_id: GameId,
    key: Seq<char>,
    started: GameEvent,
) -> Run<(), ChallengeError> {
    script::consult(
        trace,
        Ask::EncodeEvent(started),
        |reply: Reply| script::reply_text(reply),
        |payload: Result<Seq<char>, String>, trace: Trace|
            match payload {
                Err(reason) => script::fail(trace, ChallengeError::Serialization(reason)),
                Ok(payload) => script::perform(
                    trace,
                    insert_start_op(game_id, key, payload),
                    |trace: Trace|
                        script::perform(
                            trace,
                            insert_start_command_op(game_id, key),
                            |trace: Trace| script::done(trace, ()),
                        ),
                ),
            },
    )
}

fn record_start<'a>(
    script: &mut Script<'a>,
    game_id: GameId,
    idempotency_key: &str,
    started: &'a GameEvent,
) -> (recorded: Result<(), Stop<'a, ChallengeError>>)
    ensures
        script::ran(recorded, final(script)@, |recorded: ()| recorded) == record_start_run(
            old(script)@,
            game_id,
            idempotency_key@,
            *started,
        ),
{
    let game: String = id_text(game_id);
    let payload = match script.text(Request::EncodeEvent(started))? {
        Ok(payload) => payload,
        Err(reason) => return Err(Stop::Fail(ChallengeError::Serialization(reason.clone()))),
    };
    script.perform(
        Statement::insert("game_journal")
            .text("event_id", colon_joined(game.as_str(), "1").as_str())
            .text("game_id", game.as_str())
            .integer("revision", 1)
            .text("command_id", idempotency_key)
            .text("idempotency_key", idempotency_key)
            .integer("payload_version", 3)
            .text("payload", payload.as_str()),
    )?;
    script.perform(
        Statement::insert("game_commands")
            .text("game_command_id", colon_joined(game.as_str(), idempotency_key).as_str())
            .text("game_id", game.as_str())
            .text("command_id", idempotency_key)
            .text("idempotency_key", idempotency_key)
            .integer("expected_revision", 0)
            .integer("resulting_revision", 1),
    )
}

/// Apply the start event, check the seats, and project the new game.
pub open spec fn project_start_run(
    trace: Trace,
    game_id: GameId,
    started: GameEvent,
    seats: int,
    now_ms: i64,
) -> Run<GameId, ChallengeError> {
    script::consult(
        trace,
        Ask::Apply(None, started),
        |reply: Reply| script::reply_state(reply),
        |state: Result<GameState, String>, trace: Trace|
            match state {
                Err(reason) => script::fail(trace, ChallengeError::Replay(reason)),
                Ok(state) => script::query(
                    trace,
                    Op::select("game_players"@).where_text("game_id"@, ids::id_text_of(game_id)),
                    |rows: Seq<Row>, trace: Trace|
                        if rows.len() != seats {
                            script::fail(trace, ChallengeError::Invalid)
                        } else {
                            script::chain(
                                script::lift(
                                    journal::load_events_run(trace, game_id, 0),
                                    |error: JournalError| ChallengeError::Journal(error),
                                ),
                                |loaded: Seq<EventRecord>, trace: Trace|
                                    script::chain(
                                        script::lift(
                                            projections::project_game_run(
                                                trace,
                                                state,
                                                journal::event_refs(loaded),
                                                now_ms,
                                            ),
                                            |error: ProjectionError|
                                                ChallengeError::Projection(error),
                                        ),
                                        |rebuilt: (), trace: Trace|
                                            script::done(trace, game_id),
                                    ),
                            )
                        },
                ),
            },
    )
}

fn project_start<'a>(
    script: &mut Script<'a>,
    game_id: GameId,
    started: &'a GameEvent,
    seats: usize,
    now_ms: i64,
) -> (projected: Result<GameId, Stop<'a, ChallengeError>>)
    ensures
        script::ran(projected, final(script)@, |game: GameId| game) == project_start_run(
            old(script)@,
            game_id,
            *started,
            seats as int,
            now_ms,
        ),
{
    let state = match script.state(Request::Apply(None, started))? {
        Ok(state) => state,
        Err(reason) => return Err(Stop::Fail(ChallengeError::Replay(reason.clone()))),
    };
    let rows = script.query(
        Statement::select("game_players").where_text("game_id", id_text(game_id).as_str()),
    )?;
    if rows.len() != seats {
        return Err(Stop::Fail(ChallengeError::Invalid));
    }
    let loaded = match load_events(script, game_id, 0) {
        Ok(loaded) => loaded,
        Err(stop) => return Err(journal_stop(stop)),
    };
    let events = canonical_events(&loaded);
    match project_game(script, state, &events, now_ms) {
        Ok(()) => Ok(game_id),
        Err(stop) => Err(projection_stop(stop)),
    }
}

/// Create a game for users in seat order under complete rules.
pub open spec fn create_game_run(trace: Trace, creation: CreationView) -> Run<
    GameId,
    ChallengeError,
> {
    if !valid_seating(creation.users, creation.first) {
        script::fail(trace, ChallengeError::Invalid)
    } else {
        script::draw(
            trace,
            1,
            |game: Seq<u128>, trace: Trace|
                script::draw(
                    trace,
                    creation.users.len() as int,
                    |players: Seq<u128>, trace: Trace|
                        script::consult(
                            trace,
                            Ask::PinDictionary(pinned_dictionary()),
                            |reply: Reply| script::reply_accepted(reply),
                            |pinned: Result<(), String>, trace: Trace|
                                if pinned is Err {
                                    script::fail(trace, ChallengeError::Compatibility)
                                } else {
                                    deal_game_run(trace, creation, game[0], players)
                                },
                        ),
                ),
        )
    }
}

/// Deal the game and store it.
pub open spec fn deal_game_run(
    trace: Trace,
    creation: CreationView,
    game_id: GameId,
    players: Seq<PlayerId>,
) -> Run<GameId, ChallengeError> {
    script::consult(
        trace,
        Ask::Initialize(
            SetupView {
                game_id,
                players,
                first_player: players[creation.first],
                rules: creation.rules,
                dictionary: pinned_dictionary(),
                created_at: creation.now,
                shuffle_seed: creation.seed,
            },
        ),
        |reply: Reply| script::reply_event(reply),
        |started: Result<GameEvent, String>, trace: Trace|
            match (started, game::millis_at(creation.now)) {
                (Err(reason), _) => script::fail(trace, ChallengeError::Initialization(reason)),
                (_, None) => script::fail(trace, ChallengeError::Invalid),
                (Ok(started), Some(now_ms)) => script::perform(
                    trace,
                    insert_game_op(creation, game_id, now_ms),
                    |trace: Trace|
                        script::chain(
                            seat_users_run(trace, game_id, players, creation.users, 0),
                            |seated: (), trace: Trace|
                                script::chain(
                                    record_start_run(trace, game_id, creation.key, started),
                                    |recorded: (), trace: Trace|
                                        project_start_run(
                                            trace,
                                            game_id,
                                            started,
                                            creation.users.len() as int,
                                            now_ms,
                                        ),
                                ),
                        ),
                ),
            },
    )
}

fn all_distinct(users: &Vec<String>) -> (distinct: bool)
    ensures
        distinct == text::texts_view(users@).no_duplicates(),
{
    let ghost names = text::texts_view(users@);
    let mut outer: usize = 0;
    while outer < users.len()
        invariant
            outer <= users@.len(),
            names == text::texts_view(users@),
            forall|i: int, j: int| 0 <= i < j < outer ==> names[i] != names[j],
        decreases users@.len() - outer,
    {
        let mut inner: usize = 0;
        while inner < outer
            invariant
                inner <= outer < users@.len(),
                names == text::texts_view(users@),
                forall|i: int| 0 <= i < inner ==> names[i] != names[outer as int],
            decreases outer - inner,
        {
            assert(names[inner as int] == users@[inner as int]@);
            assert(names[outer as int] == users@[outer as int]@);
            if same_text(users[inner].as_str(), users[outer].as_str()) {
                assert(names[inner as int] == names[outer as int]);
                return false;
            }
            inner = inner + 1;
        }
        outer = outer + 1;
    }
    assert(names.no_duplicates());
    true
}

/// Creates one game using complete immutable rules; `first_player_index` is an index into
/// `user_ids`, whose order is the seat order.
///
/// The caller runs this inside one transaction.
pub fn create_game_for_users_with_rules_in_transaction<'a>(
    script: &mut Script<'a>,
    user_ids: &Vec<String>,
    first_player_index: usize,
    rules: &'a RuleProfile,
    now: Timestamp,
    shuffle_seed: u64,
    idempotency_key: &str,
    visibility: GameVisibilitySettings,
) -> (created: Result<GameId, Stop<'a, ChallengeError>>)
    ensures
        script::ran(created, final(script)@, |game: GameId| game) == create_game_run(
            old(script)@,
            CreationView {
                users: text::texts_view(user_ids@),
                first: first_player_index as int,
                rules: *rules,
                now,
                seed: shuffle_seed,
                key: idempotency_key@,
                visibility,
            },
        ),
{
    if user_ids.len() < 2 || !all_distinct(user_ids) || first_player_index >= user_ids.len() {
        return Err(Stop::Fail(ChallengeError::Invalid));
    }
    let game_id: GameId = script.draw(1)?[0];
    let drawn = script.draw(user_ids.len())?;
    let players: Vec<PlayerId> = drawn.clone();
    assert(players@ =~= drawn@);
    if !script.accepted(Request::PinDictionary(dictionary_pin()))? {
        return Err(Stop::Fail(ChallengeError::Compatibility));
    }
    let first_player: PlayerId = players[first_player_index];
    let setup = GameSetup {
        game_id,
        players,
        first_player,
        rules,
        dictionary: dictionary_pin(),
        created_at: now,
        shuffle_seed,
    };
    let started = match script.event(Request::Initialize(setup))? {
        Ok(started) => started,
        Err(reason) => return Err(Stop::Fail(ChallengeError::Initialization(reason.clone()))),
    };
    let now_ms: i64 = match timestamp_ms(now) {
        Some(now_ms) => now_ms,
        None => return Err(Stop::Fail(ChallengeError::Invalid)),
    };
    script.perform(
        Statement::insert("games")
            .text("game_id", id_text(game_id).as_str())
            .text("rules_id", rules.reference.id.as_str())
            .integer("rules_version", rules.reference.version as i64)
            .text("dictionary_id", dictionary_pin().id)
            .integer("dictionary_version", 1)
            .text("dictionary_checksum", dictionary_pin().checksum)
            .integer("canonical_revision", 1)
            .text("status", "ACTIVE")
            .integer(
                "show_remaining_tile_count",
                if visibility.show_remaining_tile_count { 1 } else { 0 },
            )
            .integer(
                "show_remaining_tile_faces",
                if visibility.show_remaining_tile_faces { 1 } else { 0 },
            )
            .integer("created_at_ms", now_ms)
            .integer("updated_at_ms", now_ms),
    )?;
    seat_users(script, game_id, drawn, user_ids)?;
    record_start(script, game_id, idempotency_key, started)?;
    project_start(script, game_id, started, user_ids.len(), now_ms)
}

/// Create a classic game for users in seat order.
pub open spec fn create_classic_game_run(
    trace: Trace,
    users: Seq<Seq<char>>,
    first: int,
    now: Timestamp,
    seed: u64,
    key: Seq<char>,
) -> Run<GameId, ChallengeError> {
    script::consult(
        trace,
        Ask::InitialRules,
        |reply: Reply| script::reply_rules(reply),
        |rules: Result<RuleProfile, String>, trace: Trace|
            match rules {
                Err(reason) => script::fail(trace, ChallengeError::Rules(reason)),
                Ok(rules) => create_game_run(
                    trace,
                    CreationView {
                        users,
                        first,
                        rules,
                        now,
                        seed,
                        key,
                        visibility: GameVisibilitySettings::hidden(),
                    },
                ),
            },
    )
}

/// Creates one classic game for an ordered list of users.
pub fn create_game_for_users_in_transaction<'a>(
    script: &mut Script<'a>,
    user_ids: &Vec<String>,
    first_player_index: usize,
    now: Timestamp,
    shuffle_seed: u64,
    idempotency_key: &str,
) -> (created: Result<GameId, Stop<'a, ChallengeError>>)
    ensures
        script::ran(created, final(script)@, |game: GameId| game) == create_classic_game_run(
            old(script)@,
            text::texts_view(user_ids@),
            first_player_index as int,
            now,
            shuffle_seed,
            idempotency_key@,
        ),
{
    let rules = match script.rules(Request::InitialRules)? {
        Ok(rules) => rules,
        Err(reason) => return Err(Stop::Fail(ChallengeError::Rules(reason.clone()))),
    };
    create_game_for_users_with_rules_in_transaction(
        script,
        user_ids,
        first_player_index,
        rules,
        now,
        shuffle_seed,
        idempotency_key,
        GameVisibilitySettings::default(),
    )
}

/// Creates one classic two-player game in which the first user has the first turn.
pub fn create_game_in_transaction<'a>(
    script: &mut Script<'a>,
    first_user_id: &str,
    second_user_id: &str,
    now: Timestamp,
    shuffle_seed: u64,
    idempotency_key: &str,
) -> (created: Result<GameId, Stop<'a, ChallengeError>>)
    ensures
        script::ran(created, final(script)@, |game: GameId| game) == create_classic_game_run(
            old(script)@,
            seq![first_user_id@, second_user_id@],
            0,
            now,
            shuffle_seed,
            idempotency_key@,
        ),
{
    let mut users: Vec<String> = Vec::new();
    users.push(first_user_id.to_owned());
    users.push(second_user_id.to_owned());
    assert(text::texts_view(users@) =~= seq![first_user_id@, second_user_id@]);
    create_game_for_users_in_transaction(script, &users, 0, now, shuffle_seed, idempotency_key)
}

pub open spec fn select_owned_pending_op(challenge_id: Seq<char>, challenged: Seq<char>) -> Op {
    Op::select("challenges"@)
        .where_text("challenge_id"@, challenge_id)
        .where_text("challenged_user_id"@, challenged)
        .where_text("status"@, ChallengeStatus::Pending.name())
}

pub open spec fn accept_op(challenge_id: Seq<char>, now_ms: i64) -> Op {
    Op::update("challenges"@)
        .text("status"@, ChallengeStatus::Accepted.name())
        .integer("updated_at_ms"@, now_ms as int)
        .where_text("challenge_id"@, challenge_id)
        .where_text("status"@, ChallengeStatus::Pending.name())
}

/// Accept a pending challenge and create its game in one transaction. The challenger sits first
/// and has the first turn.
pub open spec fn accept_challenge_run(
    trace: Trace,
    challenge_id: Seq<char>,
    challenged: Seq<char>,
    now: Timestamp,
    seed: u64,
) -> Run<GameId, ChallengeError> {
    script::perform(
        trace,
        Op::begin(),
        |trace: Trace|
            script::query(
                trace,
                select_owned_pending_op(challenge_id, challenged),
                |rows: Seq<Row>, trace: Trace|
                    if rows.len() == 0 {
                        script::fail(trace, ChallengeError::Unauthorized)
                    } else {
                        match (
                            rows[0].text_at("challenger_user_id"@),
                            game::millis_at(now),
                        ) {
                            (Some(challenger), Some(now_ms)) => script::query(
                                trace,
                                accept_op(challenge_id, now_ms),
                                |accepted: Seq<Row>, trace: Trace|
                                    if accepted.len() != 1 {
                                        script::perform(
                                            trace,
                                            Op::rollback(),
                                            |trace: Trace|
                                                script::fail(trace, ChallengeError::Unauthorized),
                                        )
                                    } else {
                                        script::chain(
                                            create_classic_game_run(
                                                trace,
                                                seq![challenger, challenged],
                                                0,
                                                now,
                                                seed,
                                                "accept:"@ + challenge_id,
                                            ),
                                            |game: GameId, trace: Trace|
                                                script::perform(
                                                    trace,
                                                    Op::commit(),
                                                    |trace: Trace| script::done(trace, game),
                                                ),
                                        )
                                    },
                            ),
                            _ => script::fail(trace, ChallengeError::Invalid),
                        }
                    },
            ),
    )
}

/// Accepts a pending challenge and creates its game exactly once in one transaction.
///
/// A transaction that an error leaves open is for the caller to drop.
pub fn accept_challenge<'a>(
    script: &mut Script<'a>,
    challenge_id: &str,
    challenged_user_id: &str,
    now: Timestamp,
    shuffle_seed: u64,
) -> (accepted: Result<GameId, Stop<'a, ChallengeError>>)
    ensures
        script::ran(accepted, final(script)@, |game: GameId| game) == accept_challenge_run(
            old(script)@,
            challenge_id@,
            challenged_user_id@,
            now,
            shuffle_seed,
        ),
{
    script.perform(Statement::begin())?;
    let rows = script.query(
        Statement::select("challenges")
            .where_text("challenge_id", challenge_id)
            .where_text("challenged_user_id", challenged_user_id)
            .where_text("status", ChallengeStatus::Pending.as_str()),
    )?;
    if rows.len() == 0 {
        return Err(Stop::Fail(ChallengeError::Unauthorized));
    }
    let (challenger, now_ms): (String, i64) = match (
        rows[0].get_text("challenger_user_id"),
        timestamp_ms(now),
    ) {
        (Some(challenger), Some(now_ms)) => (challenger, now_ms),
        _ => return Err(Stop::Fail(ChallengeError::Invalid)),
    };
    let accepted = script.query(
        Statement::update("challenges")
            .text("status", ChallengeStatus::Accepted.as_str())
            .integer("updated_at_ms", now_ms)
            .where_text("challenge_id", challenge_id)
            .where_text("status", ChallengeStatus::Pending.as_str()),
    )?;
    if accepted.len() != 1 {
        script.perform(Statement::rollback())?;
        return Err(Stop::Fail(ChallengeError::Unauthorized));
    }
    let game_id: GameId = create_game_in_transaction(
        script,
        challenger.as_str(),
        challenged_user_id,
        now,
        shuffle_seed,
        joined("accept:", challenge_id).as_str(),
    )?;
    script.perform(Statement::commit())?;
    Ok(game_id)
}

/// Find one user by normalized name.
pub open spec fn find_user_run(trace: Trace, username: Seq<char>) -> Run<
    Option<(Seq<char>, Seq<char>)>,
    ChallengeError,
> {
    script::query(
        trace,
        Op::select("users"@)
            .where_text("username_normalized"@, username)
            .sort("username_normalized"@, Direction::Ascending)
            .limit_to(1),
        |rows: Seq<Row>, trace: Trace|
            if rows.len() == 0 {
                script::done(trace, None)
            } else {
                match (rows[0].text_at("user_id"@), rows[0].text_at("username_display"@)) {
                    (Some(id), Some(name)) => script::done(trace, Some((id, name))),
                    _ => script::fail(trace, ChallengeError::Invalid),
                }
            },
    )
}

/// Finds a user by exact normalized username: the identity and the display form of the name.
pub fn find_user_by_username<'a>(script: &mut Script<'a>, normalized_username: &str) -> (found:
    Result<Option<(String, String)>, Stop<'a, ChallengeError>>)
    ensures
        script::ran(
            found,
            final(script)@,
            |found: Option<(String, String)>|
                match found {
                    Some((id, name)) => Some((id@, name@)),
                    None => None,
                },
        ) == find_user_run(old(script)@, normalized_username@),
{
    let rows = script.query(
        Statement::select("users")
            .where_text("username_normalized", normalized_username)
            .sort("username_normalized", Direction::Ascending)
            .limit_to(1),
    )?;
    if rows.len() == 0 {
        return Ok(None);
    }
    match (rows[0].get_text("user_id"), rows[0].get_text("username_display")) {
        (Some(id), Some(name)) => Ok(Some((id, name))),
        _ => Err(Stop::Fail(ChallengeError::Invalid)),
    }
}

} // verus!
