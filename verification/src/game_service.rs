//! Server-authoritative orchestration of gameplay commands.
use crate::game::{GameCommand, GameEvent, GameId, GameState, PlayerId};
use crate::ids::{self, id_text, read_id};
use crate::journal::{
    self, append_events, apply_events, canonical_events, load_events, recover_game, store_snapshot,
    CommandView, EventRecord, JournalError,
};
use crate::projections::{self, project_game, ProjectionError};
use crate::script::{self, settle, Ask, Reply, Request, Run, Script, Stop, Trace};
use crate::store::{self, first_text, Op, Row, Statement};
use crate::text::{self, decimal_text, joined, same_text};
use vstd::prelude::*;

verus! {

/// Gameplay service failure.
#[derive(Debug, Clone, PartialEq, Eq)]
pub enum GameServiceError {
    /// The user is not a member of the game.
    Unauthorized,
    /// The stored player identity is not an identity.
    MalformedIdentity,
    /// The game's rules or word list are not supported.
    UnsupportedCompatibility,
    /// The command was made against another revision.
    Conflict { expected: u64, actual: u64 },
    /// The rules engine rejected the command.
    Domain(String),
    /// An event could not be applied.
    Replay(String),
    Journal(JournalError),
    Projection(ProjectionError),
}

impl GameServiceError {
    /// The error in words; an outside error is told in its own.
    pub open spec fn message_of(self) -> Seq<char> {
        match self {
            GameServiceError::Unauthorized => "the authenticated user is not a member of this game"@,
            GameServiceError::MalformedIdentity => "persisted player identity is malformed"@,
            GameServiceError::UnsupportedCompatibility => "unsupported persisted rules or dictionary version"@,
            GameServiceError::Conflict { expected, actual } => "stale command revision: expected "@ + text::decimal(expected as nat) + ", actual "@ + text::decimal(actual as nat),
            GameServiceError::Domain(reason) => reason@,
            GameServiceError::Replay(reason) => reason@,
            GameServiceError::Journal(error) => error.message_of(),
            GameServiceError::Projection(error) => error.message_of(),
        }
    }

    pub fn message(self) -> (message: String)
        ensures
            message@ == self.message_of(),
    {
        match self {
            GameServiceError::Unauthorized => "the authenticated user is not a member of this game".to_owned(),
            GameServiceError::MalformedIdentity => "persisted player identity is malformed".to_owned(),
            GameServiceError::UnsupportedCompatibility => "unsupported persisted rules or dictionary version".to_owned(),
            GameServiceError::Conflict { expected, actual } => joined("stale command revision: expected ", decimal_text(expected).as_str()).concat(", actual ").concat(
                    decimal_text(actual).as_str(),
                ),
            GameServiceError::Domain(reason) => reason,
            GameServiceError::Replay(reason) => reason,
            GameServiceError::Journal(error) => error.message(),
            GameServiceError::Projection(error) => error.message(),
        }
    }
}

fn journal_stop<'a>(stop: Stop<'a, JournalError>) -> (wrapped: Stop<'a, GameServiceError>)
    ensures
        wrapped == (match stop {
            Stop::Wait(request) => Stop::Wait(request),
            Stop::Failed(number) => Stop::Failed(number),
            Stop::Mismatch(number) => Stop::Mismatch(number),
            Stop::Fail(error) => Stop::Fail(GameServiceError::Journal(error)),
        }),
{
    match stop {
        Stop::Wait(request) => Stop::Wait(request),
        Stop::Failed(number) => Stop::Failed(number),
        Stop::Mismatch(number) => Stop::Mismatch(number),
        Stop::Fail(error) => Stop::Fail(GameServiceError::Journal(error)),
    }
}

/// The failure of a replay as the failure of the command that led to it.
pub open spec fn replay_error(error: JournalError) -> GameServiceError {
    match error {
        JournalError::Replay(reason) => GameServiceError::Replay(reason),
        other => GameServiceError::Journal(other),
    }
}

fn replay_stop<'a>(stop: Stop<'a, JournalError>) -> (wrapped: Stop<'a, GameServiceError>)
    ensures
        wrapped == (match stop {
            Stop::Wait(request) => Stop::Wait(request),
            Stop::Failed(number) => Stop::Failed(number),
            Stop::Mismatch(number) => Stop::Mismatch(number),
            Stop::Fail(error) => Stop::Fail(replay_error(error)),
        }),
{
    match stop {
        Stop::Wait(request) => Stop::Wait(request),
        Stop::Failed(number) => Stop::Failed(number),
        Stop::Mismatch(number) => Stop::Mismatch(number),
        Stop::Fail(JournalError::Replay(reason)) => Stop::Fail(GameServiceError::Replay(reason)),
        Stop::Fail(error) => Stop::Fail(GameServiceError::Journal(error)),
    }
}

fn projection_stop<'a>(stop: Stop<'a, ProjectionError>) -> (wrapped: Stop<'a, GameServiceError>)
    ensures
        wrapped == (match stop {
            Stop::Wait(request) => Stop::Wait(request),
            Stop::Failed(number) => Stop::Failed(number),
            Stop::Mismatch(number) => Stop::Mismatch(number),
            Stop::Fail(error) => Stop::Fail(GameServiceError::Projection(error)),
        }),
{
    match stop {
        Stop::Wait(request) => Stop::Wait(request),
        Stop::Failed(number) => Stop::Failed(number),
        Stop::Mismatch(number) => Stop::Mismatch(number),
        Stop::Fail(error) => Stop::Fail(GameServiceError::Projection(error)),
    }
}

/// Find the player identity of a user in a game.
pub open spec fn player_for_user_run(trace: Trace, game_id: GameId, user_id: Seq<char>) -> Run<
    PlayerId,
    GameServiceError,
> {
    script::query(
        trace,
        Op::select("game_players"@).where_text("game_id"@, ids::id_text_of(game_id)).where_text(
            "user_id"@,
            user_id,
        ),
        |rows: Seq<Row>, trace: Trace|
            match store::first_text_of(rows, "game_player_id"@) {
                None => script::fail(trace, GameServiceError::Unauthorized),
                Some(player) => match ids::parsed_id(player) {
                    None => script::fail(trace, GameServiceError::MalformedIdentity),
                    Some(player) => script::done(trace, player),
                },
            },
    )
}

/// Resolves one authenticated user to their stable player identity in a game.
pub fn player_for_user<'a>(script: &mut Script<'a>, game_id: GameId, user_id: &str) -> (player:
    Result<PlayerId, Stop<'a, GameServiceError>>)
    ensures
        script::ran(player, final(script)@, |player: PlayerId| player) == player_for_user_run(
            old(script)@,
            game_id,
            user_id@,
        ),
{
    let rows = script.query(
        Statement::select("game_players").where_text("game_id", id_text(game_id).as_str()).where_text(
            "user_id",
            user_id,
        ),
    )?;
    let player = match first_text(rows, "game_player_id") {
        Some(player) => player,
        None => return Err(Stop::Fail(GameServiceError::Unauthorized)),
    };
    match read_id(player.as_str()) {
        Some(player) => Ok(player),
        None => Err(Stop::Fail(GameServiceError::MalformedIdentity)),
    }
}

/// What a user submits.
pub struct SubmissionView {
    pub game_id: GameId,
    pub user_id: Seq<char>,
    pub command_id: Seq<char>,
    pub idempotency_key: Seq<char>,
    pub expected_revision: u64,
    pub command: GameCommand,
    pub updated_at_ms: i64,
}

/// References to events.
pub open spec fn refs<'a>(events: Seq<GameEvent>) -> Seq<&'a GameEvent> {
    Seq::new(events.len(), |i: int| &events[i])
}

fn references<'a>(events: &'a Vec<GameEvent>) -> (found: Vec<&'a GameEvent>)
    ensures
        found@ == refs(events@),
        journal::event_values(found@) == events@,
{
    let mut found: Vec<&'a GameEvent> = Vec::new();
    let mut index: usize = 0;
    while index < events.len()
        invariant
            index <= events@.len(),
            found@.len() == index,
            forall|i: int| 0 <= i < index ==> *(#[trigger] found@[i]) == events@[i],
        decreases events@.len() - index,
    {
        found.push(&events[index]);
        index = index + 1;
    }
    assert(found@ =~= refs(events@));
    assert(journal::event_values(found@) =~= events@);
    found
}

/// Persist the decided events and bring snapshot and projections up to date.
pub open spec fn persist_run(
    trace: Trace,
    submission: SubmissionView,
    current: GameState,
    events: Seq<GameEvent>,
) -> Run<GameState, GameServiceError> {
    script::chain(
        script::lift(
            journal::append_events_run(
                trace,
                CommandView {
                    game_id: submission.game_id,
                    command_id: submission.command_id,
                    idempotency_key: submission.idempotency_key,
                    expected_revision: submission.expected_revision,
                },
                refs(events),
            ),
            |error: JournalError| GameServiceError::Journal(error),
        ),
        |revision: u64, trace: Trace|
            script::chain(
                script::lift(
                    journal::apply_events_run(trace, Some(current), events, 0),
                    |error: JournalError| replay_error(error),
                ),
                |state: Option<GameState>, trace: Trace|
                    script::chain(
                        script::lift(
                            journal::store_snapshot_run(
                                trace,
                                submission.game_id,
                                state->0,
                                submission.updated_at_ms,
                            ),
                            |error: JournalError| GameServiceError::Journal(error),
                        ),
                        |stored: (), trace: Trace| project_run(trace, submission, state->0),
                    ),
            ),
    )
}

pub open spec fn project_run(
    trace: Trace,
    submission: SubmissionView,
    state: GameState,
) -> Run<GameState, GameServiceError> {
    script::chain(
        script::lift(
            journal::load_events_run(trace, submission.game_id, 0),
            |error: JournalError| GameServiceError::Journal(error),
        ),
        |loaded: Seq<EventRecord>, trace: Trace|
            script::chain(
                script::lift(
                    projections::project_game_run(
                        trace,
                        state,
                        journal::event_refs(loaded),
                        submission.updated_at_ms,
                    ),
                    |error: ProjectionError| GameServiceError::Projection(error),
                ),
                |rebuilt: (), trace: Trace| script::done(trace, state),
            ),
    )
}

/// Decide and persist one command of a member against the current revision.
pub open spec fn submit_run(trace: Trace, submission: SubmissionView) -> Run<
    GameState,
    GameServiceError,
> {
    script::chain(
        player_for_user_run(trace, submission.game_id, submission.user_id),
        |actor: PlayerId, trace: Trace|
            script::chain(
                script::lift(
                    journal::recover_game_run(trace, submission.game_id),
                    |error: JournalError| GameServiceError::Journal(error),
                ),
                |current: GameState, trace: Trace|
                    if current.revision != submission.expected_revision {
                        script::fail(
                            trace,
                            GameServiceError::Conflict {
                                expected: submission.expected_revision,
                                actual: current.revision,
                            },
                        )
                    } else {
                        decide_run(trace, submission, actor, current)
                    },
            ),
    )
}

pub open spec fn decide_run(
    trace: Trace,
    submission: SubmissionView,
    actor: PlayerId,
    current: GameState,
) -> Run<GameState, GameServiceError> {
    script::consult(
        trace,
        Ask::FindDictionary(current),
        |reply: Reply| script::reply_accepted(reply),
        |found: Result<(), String>, trace: Trace|
            if found is Err || current.rules.dictionary_id@ != current.metadata.dictionary.id@ {
                script::fail(trace, GameServiceError::UnsupportedCompatibility)
            } else {
                script::consult(
                    trace,
                    Ask::Decide(current, actor, submission.command),
                    |reply: Reply| script::reply_events(reply),
                    |events: Result<Seq<GameEvent>, String>, trace: Trace|
                        match events {
                            Err(reason) => script::fail(trace, GameServiceError::Domain(reason)),
                            Ok(events) => persist_run(trace, submission, current, events),
                        },
                )
            },
    )
}

fn submit_in_transaction<'a>(
    script: &mut Script<'a>,
    game_id: GameId,
    user_id: &str,
    command_id: &str,
    idempotency_key: &str,
    expected_revision: u64,
    command: &'a GameCommand,
    updated_at_ms: i64,
) -> (submitted: Result<&'a GameState, Stop<'a, GameServiceError>>)
    ensures
        script::ran(submitted, final(script)@, |state: &'a GameState| *state) == submit_run(
            old(script)@,
            SubmissionView {
                game_id,
                user_id: user_id@,
                command_id: command_id@,
                idempotency_key: idempotency_key@,
                expected_revision,
                command: *command,
                updated_at_ms,
            },
        ),
{
    let actor: PlayerId = player_for_user(script, game_id, user_id)?;
    let current = match recover_game(script, game_id) {
        Ok(current) => current,
        Err(stop) => return Err(journal_stop(stop)),
    };
    if current.revision != expected_revision {
        return Err(
            Stop::Fail(
                GameServiceError::Conflict { expected: expected_revision, actual: current.revision },
            ),
        );
    }
    if !script.accepted(Request::FindDictionary(current))? {
        return Err(Stop::Fail(GameServiceError::UnsupportedCompatibility));
    }
    if !same_text(current.rules.dictionary_id.as_str(), current.metadata.dictionary.id.as_str()) {
        return Err(Stop::Fail(GameServiceError::UnsupportedCompatibility));
    }
    let decided = match script.events(Request::Decide { state: current, actor, command })? {
        Ok(decided) => decided,
        Err(reason) => return Err(Stop::Fail(GameServiceError::Domain(reason.clone()))),
    };
    let events = references(decided);
    match append_events(script, game_id, command_id, idempotency_key, expected_revision, &events) {
        Ok(_) => {},
        Err(stop) => return Err(journal_stop(stop)),
    }
    let state = match apply_events(script, Some(current), &events) {
        Ok(Some(state)) => state,
        Ok(None) => current,
        Err(stop) => return Err(replay_stop(stop)),
    };
    match store_snapshot(script, game_id, state, updated_at_ms) {
        Ok(()) => {},
        Err(stop) => return Err(journal_stop(stop)),
    }
    let loaded = match load_events(script, game_id, 0) {
        Ok(loaded) => loaded,
        Err(stop) => return Err(journal_stop(stop)),
    };
    match project_game(script, state, &canonical_events(&loaded), updated_at_ms) {
        Ok(()) => Ok(state),
        Err(stop) => Err(projection_stop(stop)),
    }
}

/// Authenticates membership, decides, atomically persists, snapshots and projects one command.
///
/// The caller supplies an authenticated user and the retry and revision data of the command, never
/// a player identity.
pub fn submit_game_command<'a>(
    script: &mut Script<'a>,
    game_id: GameId,
    user_id: &str,
    command_id: &str,
    idempotency_key: &str,
    expected_revision: u64,
    command: &'a GameCommand,
    updated_at_ms: i64,
) -> (submitted: Result<&'a GameState, Stop<'a, GameServiceError>>)
    ensures
        script::ran(submitted, final(script)@, |state: &'a GameState| *state)
            == script::transaction(
            old(script)@,
            |trace: Trace|
                submit_run(
                    trace,
                    SubmissionView {
                        game_id,
                        user_id: user_id@,
                        command_id: command_id@,
                        idempotency_key: idempotency_key@,
                        expected_revision,
                        command: *command,
                        updated_at_ms,
                    },
                ),
        ),
{
    script.perform(Statement::begin())?;
    let submitted = submit_in_transaction(
        script,
        game_id,
        user_id,
        command_id,
        idempotency_key,
        expected_revision,
        command,
        updated_at_ms,
    );
    settle(script, submitted)
}

} // verus!
