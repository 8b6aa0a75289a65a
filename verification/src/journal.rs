//! Durable, idempotent game-journal persistence.
use crate::game::{GameEvent, GameId, GameState};
use crate::ids::{self, id_text};
use crate::script::{self, settle, Ask, Reply, Request, Run, Script, Stop, Trace};
use crate::store::{
    self, first_integer, signed, unsigned, Datum, Direction, Op, Row, Statement, Value,
};
use crate::text::{self, colon_joined, decimal_text, joined};
use vstd::prelude::*;

verus! {

pub const GAME_EVENT_PAYLOAD_VERSION: u32 = 3;

pub const GAME_SNAPSHOT_PAYLOAD_VERSION: u32 = 3;

/// The payload versions that this release writes.
///
/// Written payload versions never change. Readers reject unknown versions.
#[derive(Debug, Clone, Copy, PartialEq, Eq, Structural)]
pub struct PersistedPayloadCompatibility {
    pub event_version: u32,
    pub snapshot_version: u32,
}

/// The exact payload versions written by this release.
pub fn persisted_payload_compatibility() -> (versions: PersistedPayloadCompatibility)
    ensures
        versions.event_version == 3,
        versions.snapshot_version == 3,
{
    PersistedPayloadCompatibility {
        event_version: GAME_EVENT_PAYLOAD_VERSION,
        snapshot_version: GAME_SNAPSHOT_PAYLOAD_VERSION,
    }
}

/// Journal failure.
#[derive(Debug, Clone, PartialEq, Eq)]
pub enum JournalError {
    /// The game does not exist.
    GameNotFound,
    /// A revision cannot be represented.
    InvalidRevision,
    /// The command was made against another revision.
    Conflict { expected: u64, actual: u64 },
    /// The revision changed after it was read.
    ConcurrentConflict,
    /// The command or its retry key was used before.
    DuplicateCommand,
    /// A stored row lacks a field or holds a wrong kind of value.
    MalformedRow,
    /// The payload version is unknown.
    UnsupportedPayloadVersion(u64),
    /// There is neither a snapshot nor a start event.
    EmptyJournal,
    /// The stored event sequence is invalid.
    Replay(String),
    /// A payload could not be written or read.
    Serialization(String),
}

impl JournalError {
    /// The error in words; an outside error is told in its own.
    pub open spec fn message_of(self) -> Seq<char> {
        match self {
            JournalError::GameNotFound => "game does not exist"@,
            JournalError::InvalidRevision => "game revision is invalid"@,
            JournalError::Conflict { expected, actual } => "expected revision "@ + text::decimal(expected as nat) + ", actual revision "@ + text::decimal(actual as nat),
            JournalError::ConcurrentConflict => "game revision changed concurrently"@,
            JournalError::DuplicateCommand => "command or idempotency key has already been used"@,
            JournalError::MalformedRow => "persisted journal row is malformed"@,
            JournalError::UnsupportedPayloadVersion(version) => "unsupported payload version "@ + text::decimal(version as nat),
            JournalError::EmptyJournal => "canonical journal is empty"@,
            JournalError::Replay(reason) => reason@,
            JournalError::Serialization(reason) => reason@,
        }
    }

    pub fn message(self) -> (message: String)
        ensures
            message@ == self.message_of(),
    {
        match self {
            JournalError::GameNotFound => "game does not exist".to_owned(),
            JournalError::InvalidRevision => "game revision is invalid".to_owned(),
            JournalError::Conflict { expected, actual } => joined("expected revision ", decimal_text(expected).as_str()).concat(", actual revision ").concat(
                    decimal_text(actual).as_str(),
                ),
            JournalError::ConcurrentConflict => "game revision changed concurrently".to_owned(),
            JournalError::DuplicateCommand => "command or idempotency key has already been used".to_owned(),
            JournalError::MalformedRow => "persisted journal row is malformed".to_owned(),
            JournalError::UnsupportedPayloadVersion(version) => joined("unsupported payload version ", decimal_text(version as u64).as_str()),
            JournalError::EmptyJournal => "canonical journal is empty".to_owned(),
            JournalError::Replay(reason) => reason,
            JournalError::Serialization(reason) => reason,
        }
    }
}

/// One canonical event as it stands in the journal.
#[derive(Debug)]
pub struct PersistedGameEvent<'a> {
    pub game_id: GameId,
    pub revision: u64,
    pub command_id: String,
    pub idempotency_key: String,
    pub payload_version: u32,
    pub event: &'a GameEvent,
}

/// The mathematical content of a [`PersistedGameEvent`].
#[verifier::ext_equal]
pub struct EventRecord {
    pub game_id: GameId,
    pub revision: u64,
    pub command_id: Seq<char>,
    pub idempotency_key: Seq<char>,
    pub payload_version: u32,
    pub event: GameEvent,
}

impl<'a> View for PersistedGameEvent<'a> {
    type V = EventRecord;

    open spec fn view(&self) -> EventRecord {
        EventRecord {
            game_id: self.game_id,
            revision: self.revision,
            command_id: self.command_id@,
            idempotency_key: self.idempotency_key@,
            payload_version: self.payload_version,
            event: *self.event,
        }
    }
}

/// One command as it is appended: its identity, its retry key, the revision it was made against.
pub struct CommandView {
    pub game_id: GameId,
    pub command_id: Seq<char>,
    pub idempotency_key: Seq<char>,
    pub expected_revision: u64,
}

/// The revision of the event at `index` of a command made against revision `expected`.
pub open spec fn event_revision(expected: u64, index: int) -> Option<u64> {
    if expected + index + 1 <= u64::MAX {
        Some((expected + index + 1) as u64)
    } else {
        None
    }
}

pub open spec fn insert_event_op(
    command: CommandView,
    revision: u64,
    payload: Seq<char>,
) -> Op {
    let game = ids::id_text_of(command.game_id);
    Op::insert("game_journal"@)
        .text("event_id"@, text::colon_pair(game, text::decimal(revision as nat)))
        .text("game_id"@, game)
        .integer("revision"@, revision as int)
        .text("command_id"@, command.command_id)
        .text("idempotency_key"@, command.idempotency_key)
        .integer("payload_version"@, 3)
        .text("payload"@, payload)
}

/// Insert the events of a command from `index` on.
pub open spec fn insert_events_run(
    trace: Trace,
    command: CommandView,
    events: Seq<&GameEvent>,
    index: int,
) -> Run<(), JournalError>
    decreases events.len() - index,
{
    if index >= events.len() {
        script::done(trace, ())
    } else {
        match event_revision(command.expected_revision, index) {
            None => script::fail(trace, JournalError::InvalidRevision),
            Some(revision) => if revision > i64::MAX {
                script::fail(trace, JournalError::InvalidRevision)
            } else {
                script::consult(
                    trace,
                    Ask::EncodeEvent(*events[index]),
                    |reply: Reply| script::reply_text(reply),
                    |payload: Result<Seq<char>, String>, trace: Trace|
                        match payload {
                            Err(reason) => script::fail(trace, JournalError::Serialization(reason)),
                            Ok(payload) => script::perform(
                                trace,
                                insert_event_op(command, revision, payload),
                                |trace: Trace| insert_events_run(trace, command, events, index + 1),
                            ),
                        },
                )
            },
        }
    }
}

pub open spec fn insert_command_op(command: CommandView, resulting: u64) -> Op {
    let game = ids::id_text_of(command.game_id);
    Op::insert("game_commands"@)
        .text("game_command_id"@, text::colon_pair(game, command.command_id))
        .text("game_id"@, game)
        .text("command_id"@, command.command_id)
        .text("idempotency_key"@, command.idempotency_key)
        .integer("expected_revision"@, command.expected_revision as int)
        .integer("resulting_revision"@, resulting as int)
}

pub open spec fn advance_revision_op(command: CommandView, resulting: u64) -> Op {
    Op::update("games"@)
        .integer("canonical_revision"@, resulting as int)
        .where_text("game_id"@, ids::id_text_of(command.game_id))
        .where_eq("canonical_revision"@, Datum::Integer(command.expected_revision as int))
}

/// Record the command and advance the game to the revision after `count` events.
pub open spec fn finish_append_run(
    trace: Trace,
    command: CommandView,
    count: int,
) -> Run<u64, JournalError> {
    let resulting = command.expected_revision + count;
    if resulting > u64::MAX || command.expected_revision > i64::MAX || resulting > i64::MAX {
        script::fail(trace, JournalError::InvalidRevision)
    } else {
        script::perform(
            trace,
            insert_command_op(command, resulting as u64),
            |trace: Trace|
                script::query(
                    trace,
                    advance_revision_op(command, resulting as u64),
                    |updated: Seq<Row>, trace: Trace|
                        if updated.len() != 1 {
                            script::fail(trace, JournalError::ConcurrentConflict)
                        } else {
                            script::done(trace, resulting as u64)
                        },
                ),
        )
    }
}

/// Append the events of one command: the game must stand at the expected revision, and neither the
/// command nor its retry key may have been used.
pub open spec fn append_events_run(
    trace: Trace,
    command: CommandView,
    events: Seq<&GameEvent>,
) -> Run<u64, JournalError> {
    let game = ids::id_text_of(command.game_id);
    script::query(
        trace,
        Op::select("games"@).where_text("game_id"@, game),
        |rows: Seq<Row>, trace: Trace|
            match store::first_integer_of(rows, "canonical_revision"@) {
                None => script::fail(trace, JournalError::GameNotFound),
                Some(actual) => if actual < 0 {
                    script::fail(trace, JournalError::InvalidRevision)
                } else if actual != command.expected_revision {
                    script::fail(
                        trace,
                        JournalError::Conflict {
                            expected: command.expected_revision,
                            actual: actual as u64,
                        },
                    )
                } else {
                    append_unused_run(trace, command, events)
                },
            },
    )
}

pub open spec fn append_unused_run(
    trace: Trace,
    command: CommandView,
    events: Seq<&GameEvent>,
) -> Run<u64, JournalError> {
    let game = ids::id_text_of(command.game_id);
    script::query(
        trace,
        Op::select("game_commands"@).where_text("game_id"@, game).where_text(
            "command_id"@,
            command.command_id,
        ),
        |used: Seq<Row>, trace: Trace|
            if used.len() > 0 {
                script::fail(trace, JournalError::DuplicateCommand)
            } else {
                script::query(
                    trace,
                    Op::select("game_commands"@).where_text("game_id"@, game).where_text(
                        "idempotency_key"@,
                        command.idempotency_key,
                    ),
                    |used: Seq<Row>, trace: Trace|
                        if used.len() > 0 {
                            script::fail(trace, JournalError::DuplicateCommand)
                        } else {
                            script::chain(
                                insert_events_run(trace, command, events, 0),
                                |inserted: (), trace: Trace|
                                    finish_append_run(trace, command, events.len() as int),
                            )
                        },
                )
            },
    )
}

/// Appends canonical events only when the expected revision still matches.
///
/// The caller runs this inside one transaction, so that checking the revision, appending every
/// event and advancing the revision are atomic.
pub fn append_events<'a>(
    script: &mut Script<'a>,
    game_id: GameId,
    command_id: &str,
    idempotency_key: &str,
    expected_revision: u64,
    events: &Vec<&'a GameEvent>,
) -> (appended: Result<u64, Stop<'a, JournalError>>)
    ensures
        script::ran(appended, final(script)@, |revision: u64| revision) == append_events_run(
            old(script)@,
            CommandView {
                game_id,
                command_id: command_id@,
                idempotency_key: idempotency_key@,
                expected_revision,
            },
            events@,
        ),
{
    let ghost command = CommandView {
        game_id,
        command_id: command_id@,
        idempotency_key: idempotency_key@,
        expected_revision,
    };
    let game: String = id_text(game_id);
    let rows = script.query(Statement::select("games").where_text("game_id", game.as_str()))?;
    let actual: i64 = match first_integer(rows, "canonical_revision") {
        Some(actual) => actual,
        None => return Err(Stop::Fail(JournalError::GameNotFound)),
    };
    if actual < 0 {
        return Err(Stop::Fail(JournalError::InvalidRevision));
    }
    if actual as u64 != expected_revision {
        return Err(
            Stop::Fail(
                JournalError::Conflict { expected: expected_revision, actual: actual as u64 },
            ),
        );
    }
    let used = script.query(
        Statement::select("game_commands").where_text("game_id", game.as_str()).where_text(
            "command_id",
            command_id,
        ),
    )?;
    if used.len() > 0 {
        return Err(Stop::Fail(JournalError::DuplicateCommand));
    }
    let used = script.query(
        Statement::select("game_commands").where_text("game_id", game.as_str()).where_text(
            "idempotency_key",
            idempotency_key,
        ),
    )?;
    if used.len() > 0 {
        return Err(Stop::Fail(JournalError::DuplicateCommand));
    }
    let ghost start = script@;
    let ghost target = append_events_run(old(script)@, command, events@);
    assert(target == script::chain(
        insert_events_run(start, command, events@, 0),
        |inserted: (), trace: Trace| finish_append_run(trace, command, events.len() as int),
    ));
    let mut index: usize = 0;
    while index < events.len()
        invariant
            index <= events@.len(),
            game@ == ids::id_text_of(game_id),
            command == (CommandView {
                game_id,
                command_id: command_id@,
                idempotency_key: idempotency_key@,
                expected_revision,
            }),
            target == script::chain(
                insert_events_run(script@, command, events@, index as int),
                |inserted: (), trace: Trace| finish_append_run(trace, command, events@.len() as int),
            ),
            target == append_events_run(old(script)@, command, events@),
        decreases events@.len() - index,
    {
        let revision: u64 = match expected_revision.checked_add(index as u64 + 1) {
            Some(revision) => revision,
            None => return Err(Stop::Fail(JournalError::InvalidRevision)),
        };
        let stored: i64 = match signed(revision) {
            Some(stored) => stored,
            None => return Err(Stop::Fail(JournalError::InvalidRevision)),
        };
        let payload = match script.text(Request::EncodeEvent(events[index]))? {
            Ok(payload) => payload,
            Err(reason) => return Err(Stop::Fail(JournalError::Serialization(reason.clone()))),
        };
        script.perform(
            Statement::insert("game_journal")
                .text("event_id", colon_joined(game.as_str(), decimal_text(revision).as_str()).as_str())
                .text("game_id", game.as_str())
                .integer("revision", stored)
                .text("command_id", command_id)
                .text("idempotency_key", idempotency_key)
                .integer("payload_version", GAME_EVENT_PAYLOAD_VERSION as i64)
                .text("payload", payload.as_str()),
        )?;
        index = index + 1;
    }
    let resulting: u64 = match expected_revision.checked_add(events.len() as u64) {
        Some(resulting) => resulting,
        None => return Err(Stop::Fail(JournalError::InvalidRevision)),
    };
    let (expected, reached): (i64, i64) = match (signed(expected_revision), signed(resulting)) {
        (Some(expected), Some(reached)) => (expected, reached),
        _ => return Err(Stop::Fail(JournalError::InvalidRevision)),
    };
    script.perform(
        Statement::insert("game_commands")
            .text("game_command_id", colon_joined(game.as_str(), command_id).as_str())
            .text("game_id", game.as_str())
            .text("command_id", command_id)
            .text("idempotency_key", idempotency_key)
            .integer("expected_revision", expected)
            .integer("resulting_revision", reached),
    )?;
    let updated = script.query(
        Statement::update("games")
            .integer("canonical_revision", reached)
            .where_text("game_id", game.as_str())
            .where_eq("canonical_revision", Value::Integer(expected)),
    )?;
    if updated.len() != 1 {
        return Err(Stop::Fail(JournalError::ConcurrentConflict));
    }
    Ok(resulting)
}

/// Begins, appends, and commits one canonical command transaction; rolls back where appending fails.
pub fn append_events_transactionally<'a>(
    script: &mut Script<'a>,
    game_id: GameId,
    command_id: &str,
    idempotency_key: &str,
    expected_revision: u64,
    events: &Vec<&'a GameEvent>,
) -> (appended: Result<u64, Stop<'a, JournalError>>)
    ensures
        script::ran(appended, final(script)@, |revision: u64| revision) == script::transaction(
            old(script)@,
            |trace: Trace|
                append_events_run(
                    trace,
                    CommandView {
                        game_id,
                        command_id: command_id@,
                        idempotency_key: idempotency_key@,
                        expected_revision,
                    },
                    events@,
                ),
        ),
{
    script.perform(Statement::begin())?;
    let appended = append_events(
        script,
        game_id,
        command_id,
        idempotency_key,
        expected_revision,
        events,
    );
    settle(script, appended)
}

/// Whether `version` is one of the payload versions that readers know.
pub open spec fn known_version(version: u64) -> bool {
    1 <= version <= 3
}

/// Read an event written in `version`.
pub open spec fn decode_event_run(
    trace: Trace,
    version: u64,
    payload: Seq<char>,
) -> Run<GameEvent, JournalError> {
    if !known_version(version) {
        script::fail(trace, JournalError::UnsupportedPayloadVersion(version))
    } else {
        script::consult(
            trace,
            Ask::DecodeEvent(version, payload),
            |reply: Reply| script::reply_event(reply),
            |event: Result<GameEvent, String>, trace: Trace|
                match event {
                    Ok(event) => script::done(trace, event),
                    Err(reason) => script::fail(trace, JournalError::Serialization(reason)),
                },
        )
    }
}

fn decode_game_event<'a>(script: &mut Script<'a>, version: u64, payload: String) -> (event: Result<
    &'a GameEvent,
    Stop<'a, JournalError>,
>)
    ensures
        script::ran(event, final(script)@, |event: &'a GameEvent| *event) == decode_event_run(
            old(script)@,
            version,
            payload@,
        ),
{
    if version < 1 || version > 3 {
        return Err(Stop::Fail(JournalError::UnsupportedPayloadVersion(version)));
    }
    match script.event(Request::DecodeEvent { version, payload })? {
        Ok(event) => Ok(event),
        Err(reason) => Err(Stop::Fail(JournalError::Serialization(reason.clone()))),
    }
}

/// Read a state written in `version`.
pub open spec fn decode_state_run(
    trace: Trace,
    version: u64,
    payload: Seq<char>,
) -> Run<GameState, JournalError> {
    if !known_version(version) {
        script::fail(trace, JournalError::UnsupportedPayloadVersion(version))
    } else {
        script::consult(
            trace,
            Ask::DecodeState(version, payload),
            |reply: Reply| script::reply_state(reply),
            |state: Result<GameState, String>, trace: Trace|
                match state {
                    Ok(state) => script::done(trace, state),
                    Err(reason) => script::fail(trace, JournalError::Serialization(reason)),
                },
        )
    }
}

fn decode_game_state<'a>(script: &mut Script<'a>, version: u64, payload: String) -> (state: Result<
    &'a GameState,
    Stop<'a, JournalError>,
>)
    ensures
        script::ran(state, final(script)@, |state: &'a GameState| *state) == decode_state_run(
            old(script)@,
            version,
            payload@,
        ),
{
    if version < 1 || version > 3 {
        return Err(Stop::Fail(JournalError::UnsupportedPayloadVersion(version)));
    }
    match script.state(Request::DecodeState { version, payload })? {
        Ok(state) => Ok(state),
        Err(reason) => Err(Stop::Fail(JournalError::Serialization(reason.clone()))),
    }
}

/// Read one journal row.
pub open spec fn journal_row_run(
    trace: Trace,
    game_id: GameId,
    row: Row,
) -> Run<EventRecord, JournalError> {
    let revision = store::unsigned_of(row.integer_at("revision"@));
    let version = store::unsigned_of(row.integer_at("payload_version"@));
    let payload = row.text_at("payload"@);
    let command_id = row.text_at("command_id"@);
    let idempotency_key = row.text_at("idempotency_key"@);
    if revision is None || version is None || payload is None {
        script::fail(trace, JournalError::MalformedRow)
    } else if version->0 > u32::MAX {
        script::fail(trace, JournalError::UnsupportedPayloadVersion(version->0))
    } else if command_id is None || idempotency_key is None {
        script::fail(trace, JournalError::MalformedRow)
    } else {
        script::chain(
            decode_event_run(trace, version->0, payload->0),
            |event: GameEvent, trace: Trace|
                script::done(
                    trace,
                    EventRecord {
                        game_id,
                        revision: revision->0,
                        command_id: command_id->0,
                        idempotency_key: idempotency_key->0,
                        payload_version: version->0 as u32,
                        event,
                    },
                ),
        )
    }
}

/// Read the journal rows from `index` on, after the events of `read`.
pub open spec fn journal_rows_run(
    trace: Trace,
    game_id: GameId,
    rows: Seq<Row>,
    index: int,
    read: Seq<EventRecord>,
) -> Run<Seq<EventRecord>, JournalError>
    decreases rows.len() - index,
{
    if index >= rows.len() {
        script::done(trace, read)
    } else {
        script::chain(
            journal_row_run(trace, game_id, rows[index]),
            |event: EventRecord, trace: Trace|
                journal_rows_run(trace, game_id, rows, index + 1, read.push(event)),
        )
    }
}

/// Load the journal after a revision, in revision order.
pub open spec fn load_events_run(
    trace: Trace,
    game_id: GameId,
    after_revision: u64,
) -> Run<Seq<EventRecord>, JournalError> {
    if after_revision > i64::MAX {
        script::fail(trace, JournalError::InvalidRevision)
    } else {
        script::query(
            trace,
            Op::select("game_journal"@)
                .where_text("game_id"@, ids::id_text_of(game_id))
                .where_gt("revision"@, after_revision as int)
                .sort("revision"@, Direction::Ascending),
            |rows: Seq<Row>, trace: Trace|
                journal_rows_run(trace, game_id, rows, 0, Seq::empty()),
        )
    }
}

/// The contents of journal events.
pub open spec fn records(events: Seq<PersistedGameEvent<'_>>) -> Seq<EventRecord> {
    Seq::new(events.len(), |i: int| events[i]@)
}

fn read_journal_row<'a>(script: &mut Script<'a>, game_id: GameId, row: &Row) -> (event: Result<
    PersistedGameEvent<'a>,
    Stop<'a, JournalError>,
>)
    ensures
        script::ran(event, final(script)@, |event: PersistedGameEvent<'a>| event@)
            == journal_row_run(old(script)@, game_id, *row),
{
    let revision = unsigned(row.get_integer("revision"));
    let version = unsigned(row.get_integer("payload_version"));
    let payload = row.get_text("payload");
    let (revision, version, payload): (u64, u64, String) = match (revision, version, payload) {
        (Some(revision), Some(version), Some(payload)) => (revision, version, payload),
        _ => return Err(Stop::Fail(JournalError::MalformedRow)),
    };
    if version > u32::MAX as u64 {
        return Err(Stop::Fail(JournalError::UnsupportedPayloadVersion(version)));
    }
    let (command_id, idempotency_key) = match (
        row.get_text("command_id"),
        row.get_text("idempotency_key"),
    ) {
        (Some(command_id), Some(idempotency_key)) => (command_id, idempotency_key),
        _ => return Err(Stop::Fail(JournalError::MalformedRow)),
    };
    let event = decode_game_event(script, version, payload)?;
    Ok(
        PersistedGameEvent {
            game_id,
            revision,
            command_id,
            idempotency_key,
            payload_version: version as u32,
            event,
        },
    )
}

/// Loads a canonical journal in revision order and reads its versioned events.
pub fn load_events<'a>(script: &mut Script<'a>, game_id: GameId, after_revision: u64) -> (loaded:
    Result<Vec<PersistedGameEvent<'a>>, Stop<'a, JournalError>>)
    ensures
        script::ran(loaded, final(script)@, |events: Vec<PersistedGameEvent<'a>>| records(events@))
            == load_events_run(old(script)@, game_id, after_revision),
{
    let after: i64 = match signed(after_revision) {
        Some(after) => after,
        None => return Err(Stop::Fail(JournalError::InvalidRevision)),
    };
    let rows = script.query(
        Statement::select("game_journal")
            .where_text("game_id", id_text(game_id).as_str())
            .where_gt("revision", after)
            .sort("revision", Direction::Ascending),
    )?;
    let mut events: Vec<PersistedGameEvent<'a>> = Vec::new();
    assert(records(events@) =~= Seq::<EventRecord>::empty());
    let mut index: usize = 0;
    while index < rows.len()
        invariant
            index <= rows@.len(),
            load_events_run(old(script)@, game_id, after_revision) == journal_rows_run(
                script@,
                game_id,
                rows@,
                index as int,
                records(events@),
            ),
        decreases rows@.len() - index,
    {
        let ghost read = records(events@);
        let event = read_journal_row(script, game_id, &rows[index])?;
        proof {
            assert(records(events@.push(event)) =~= read.push(event@));
        }
        events.push(event);
        index = index + 1;
    }
    Ok(events)
}

pub open spec fn delete_snapshot_op(game_id: GameId, revision: u64) -> Op {
    Op::delete("game_snapshots"@).where_text("game_id"@, ids::id_text_of(game_id)).where_eq(
        "revision"@,
        Datum::Integer(revision as int),
    )
}

pub open spec fn insert_snapshot_op(
    game_id: GameId,
    revision: u64,
    payload: Seq<char>,
    created_at_ms: i64,
) -> Op {
    let game = ids::id_text_of(game_id);
    Op::insert("game_snapshots"@)
        .text("snapshot_id"@, text::colon_pair(game, text::decimal(revision as nat)))
        .text("game_id"@, game)
        .integer("revision"@, revision as int)
        .integer("payload_version"@, 3)
        .text("payload"@, payload)
        .integer("created_at_ms"@, created_at_ms as int)
}

/// Replace the snapshot of a state's revision.
pub open spec fn store_snapshot_run(
    trace: Trace,
    game_id: GameId,
    state: GameState,
    created_at_ms: i64,
) -> Run<(), JournalError> {
    if state.revision > i64::MAX {
        script::fail(trace, JournalError::InvalidRevision)
    } else {
        script::perform(
            trace,
            delete_snapshot_op(game_id, state.revision),
            |trace: Trace|
                script::consult(
                    trace,
                    Ask::EncodeState(state),
                    |reply: Reply| script::reply_text(reply),
                    |payload: Result<Seq<char>, String>, trace: Trace|
                        match payload {
                            Err(reason) => script::fail(trace, JournalError::Serialization(reason)),
                            Ok(payload) => script::perform(
                                trace,
                                insert_snapshot_op(game_id, state.revision, payload, created_at_ms),
                                |trace: Trace| script::done(trace, ()),
                            ),
                        },
                ),
        )
    }
}

/// Stores a canonical snapshot in place of any earlier one of the same revision.
pub fn store_snapshot<'a>(
    script: &mut Script<'a>,
    game_id: GameId,
    state: &'a GameState,
    created_at_ms: i64,
) -> (stored: Result<(), Stop<'a, JournalError>>)
    ensures
        script::ran(stored, final(script)@, |stored: ()| stored) == store_snapshot_run(
            old(script)@,
            game_id,
            *state,
            created_at_ms,
        ),
{
    let game: String = id_text(game_id);
    let revision: i64 = match signed(state.revision) {
        Some(revision) => revision,
        None => return Err(Stop::Fail(JournalError::InvalidRevision)),
    };
    script.perform(
        Statement::delete("game_snapshots").where_text("game_id", game.as_str()).where_eq(
            "revision",
            Value::Integer(revision),
        ),
    )?;
    let payload = match script.text(Request::EncodeState(state))? {
        Ok(payload) => payload,
        Err(reason) => return Err(Stop::Fail(JournalError::Serialization(reason.clone()))),
    };
    script.perform(
        Statement::insert("game_snapshots")
            .text(
                "snapshot_id",
                colon_joined(game.as_str(), decimal_text(state.revision).as_str()).as_str(),
            )
            .text("game_id", game.as_str())
            .integer("revision", revision)
            .integer("payload_version", GAME_SNAPSHOT_PAYLOAD_VERSION as i64)
            .text("payload", payload.as_str())
            .integer("created_at_ms", created_at_ms),
    )
}

/// Load the snapshot with the highest revision.
pub open spec fn load_latest_snapshot_run(trace: Trace, game_id: GameId) -> Run<
    Option<GameState>,
    JournalError,
> {
    script::query(
        trace,
        Op::select("game_snapshots"@).where_text("game_id"@, ids::id_text_of(game_id)).sort(
            "revision"@,
            Direction::Descending,
        ),
        |rows: Seq<Row>, trace: Trace|
            if rows.len() == 0 {
                script::done(trace, None)
            } else {
                match (
                    store::unsigned_of(rows[0].integer_at("payload_version"@)),
                    rows[0].text_at("payload"@),
                ) {
                    (Some(version), Some(payload)) => script::reshape(
                        decode_state_run(trace, version, payload),
                        |state: GameState| Some(state),
                    ),
                    _ => script::fail(trace, JournalError::MalformedRow),
                }
            },
    )
}

/// Loads the latest compatible canonical snapshot.
pub fn load_latest_snapshot<'a>(script: &mut Script<'a>, game_id: GameId) -> (loaded: Result<
    Option<&'a GameState>,
    Stop<'a, JournalError>,
>)
    ensures
        script::ran(loaded, final(script)@, |state: Option<&'a GameState>| script::owned(state))
            == load_latest_snapshot_run(old(script)@, game_id),
{
    let rows = script.query(
        Statement::select("game_snapshots").where_text("game_id", id_text(game_id).as_str()).sort(
            "revision",
            Direction::Descending,
        ),
    )?;
    if rows.len() == 0 {
        return Ok(None);
    }
    match (unsigned(rows[0].get_integer("payload_version")), rows[0].get_text("payload")) {
        (Some(version), Some(payload)) => Ok(Some(decode_game_state(script, version, payload)?)),
        _ => Err(Stop::Fail(JournalError::MalformedRow)),
    }
}

/// Apply the events from `index` on to a state.
pub open spec fn apply_events_run(
    trace: Trace,
    state: Option<GameState>,
    events: Seq<GameEvent>,
    index: int,
) -> Run<Option<GameState>, JournalError>
    decreases events.len() - index,
{
    if index >= events.len() {
        script::done(trace, state)
    } else {
        script::consult(
            trace,
            Ask::Apply(state, events[index]),
            |reply: Reply| script::reply_state(reply),
            |state: Result<GameState, String>, trace: Trace|
                match state {
                    Err(reason) => script::fail(trace, JournalError::Replay(reason)),
                    Ok(state) => apply_events_run(trace, Some(state), events, index + 1),
                },
        )
    }
}

/// The events of a sequence of references.
pub open spec fn event_values(events: Seq<&GameEvent>) -> Seq<GameEvent> {
    Seq::new(events.len(), |i: int| *events[i])
}

/// The canonical events of journal records.
pub open spec fn record_events(events: Seq<EventRecord>) -> Seq<GameEvent> {
    Seq::new(events.len(), |i: int| events[i].event)
}

/// References to the canonical events of journal records.
pub open spec fn event_refs<'a>(events: Seq<EventRecord>) -> Seq<&'a GameEvent> {
    Seq::new(events.len(), |i: int| &events[i].event)
}

/// Applies every event in turn, starting from `state` or from nothing.
pub fn apply_events<'a>(
    script: &mut Script<'a>,
    state: Option<&'a GameState>,
    events: &Vec<&'a GameEvent>,
) -> (applied: Result<Option<&'a GameState>, Stop<'a, JournalError>>)
    requires
    ensures
        script::ran(applied, final(script)@, |state: Option<&'a GameState>| script::owned(state))
            == apply_events_run(old(script)@, script::owned(state), event_values(events@), 0),
        applied matches Ok(None) ==> state is None && events@.len() == 0,
{
    let ghost goal = apply_events_run(
        old(script)@,
        script::owned(state),
        event_values(events@),
        0,
    );
    let mut current: Option<&'a GameState> = state;
    let mut index: usize = 0;
    while index < events.len()
        invariant
            index <= events@.len(),
            goal == apply_events_run(
                old(script)@,
                script::owned(state),
                event_values(events@),
                0,
            ),
            goal == apply_events_run(
                script@,
                script::owned(current),
                event_values(events@),
                index as int,
            ),
            current is None ==> state is None && index == 0,
        decreases events@.len() - index,
    {
        match script.state(Request::Apply(current, events[index]))? {
            Ok(state) => {
                current = Some(state);
            },
            Err(reason) => return Err(Stop::Fail(JournalError::Replay(reason.clone()))),
        }
        index = index + 1;
    }
    Ok(current)
}

/// Recover a game: its latest snapshot, or nothing, with the journal after it applied.
pub open spec fn recover_game_run(trace: Trace, game_id: GameId) -> Run<GameState, JournalError> {
    script::chain(
        load_latest_snapshot_run(trace, game_id),
        |snapshot: Option<GameState>, trace: Trace|
            script::chain(
                load_events_run(
                    trace,
                    game_id,
                    match snapshot {
                        Some(state) => state.revision,
                        None => 0,
                    },
                ),
                |tail: Seq<EventRecord>, trace: Trace|
                    if snapshot is None && tail.len() == 0 {
                        script::fail(trace, JournalError::EmptyJournal)
                    } else {
                        script::chain(
                            apply_events_run(trace, snapshot, record_events(tail), 0),
                            |state: Option<GameState>, trace: Trace| script::done(trace, state->0),
                        )
                    },
            ),
    )
}

/// Loads the canonical game from its latest snapshot plus the journal after it.
pub fn recover_game<'a>(script: &mut Script<'a>, game_id: GameId) -> (recovered: Result<
    &'a GameState,
    Stop<'a, JournalError>,
>)
    ensures
        script::ran(recovered, final(script)@, |state: &'a GameState| *state) == recover_game_run(
            old(script)@,
            game_id,
        ),
{
    let snapshot = load_latest_snapshot(script, game_id)?;
    let after_revision: u64 = match snapshot {
        Some(state) => state.revision,
        None => 0,
    };
    let tail = load_events(script, game_id, after_revision)?;
    if snapshot.is_none() && tail.len() == 0 {
        return Err(Stop::Fail(JournalError::EmptyJournal));
    }
    let events = canonical_events(&tail);
    match apply_events(script, snapshot, &events)? {
        Some(state) => Ok(state),
        None => Err(Stop::Fail(JournalError::EmptyJournal)),
    }
}

/// The canonical events of a loaded journal.
pub fn canonical_events<'a>(loaded: &Vec<PersistedGameEvent<'a>>) -> (events: Vec<&'a GameEvent>)
    ensures
        event_values(events@) == record_events(records(loaded@)),
        events@ == event_refs(records(loaded@)),
        events@.len() == loaded@.len(),
{
    let mut events: Vec<&'a GameEvent> = Vec::new();
    let mut index: usize = 0;
    while index < loaded.len()
        invariant
            index <= loaded@.len(),
            events@.len() == index,
            forall|i: int| 0 <= i < index ==> *(#[trigger] events@[i]) == *loaded@[i].event,
        decreases loaded@.len() - index,
    {
        events.push(loaded[index].event);
        index = index + 1;
    }
    assert(event_values(events@) =~= record_events(records(loaded@)));
    assert(events@ =~= event_refs(records(loaded@)));
    events
}

} // verus!
