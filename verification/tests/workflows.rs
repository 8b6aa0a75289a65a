//! The workflows end to end, over an in-memory store and a small rules engine.
use std::collections::{BTreeMap, BTreeSet};

use wwmtf_app::accounts::{authenticate, hash_password, normalize_username, register, verify_password};
use wwmtf_app::accounts::{password_needs_upgrade, AccountError};
use wwmtf_app::avatars::{normalize_avatar, profile_image, ProfileImage};
use wwmtf_app::challenges::{
    accept_challenge, cancel_challenge, create_challenge, decline_challenge, find_user_by_username,
    ChallengeError,
};
use wwmtf_app::components::game_view;
use wwmtf_app::crypto::{fresh_bytes, token_hash};
use wwmtf_app::dashboard::{
    dashboard_projection, user_game_summaries, DashboardProjection, GameSummary,
};
use wwmtf_app::definitions::{
    lookup_definition, DefinitionError, DefinitionLookup, DefinitionMeaning,
    DefinitionUnavailableReason, WordDefinition, MISSING_TTL_MS, SUCCESS_TTL_MS,
};
use wwmtf_app::external_identities::{
    link_external_identity, resolve_or_create_external_account, user_for_external_identity,
    ExternalIdentityError, ResolvedExternalAccount, VerifiedExternalIdentity,
};
use wwmtf_app::game::{
    BoardTile, CompletionReason, Coordinate, DictionaryRef, GameCommand, GameEvent, GameId,
    GameMetadata, GameState, GameStatus, PlayerId, ReplayError, RuleProfile, RuleProfileRef, Span,
    Tile, TileDefinition, TileFace, Timestamp,
};
use wwmtf_app::game_service::{player_for_user, submit_game_command, GameServiceError};
use wwmtf_app::google_accounts::{
    complete_legacy_google_migration, google_login_and_create_session,
    prove_legacy_password_account, GoogleAccountWorkflowError,
};
use wwmtf_app::ids::{format_id, fresh_id, fresh_ids};
use wwmtf_app::invitations::{
    create_invitation, redeem_invitation, redeem_invitation_and_start_game, revoke_invitation,
    InvitationError,
};
use wwmtf_app::journal::{
    append_events_transactionally, load_events, load_latest_snapshot,
    persisted_payload_compatibility, recover_game, store_snapshot, JournalError,
};
use wwmtf_app::lobbies::{
    cancel_lobby, create_lobby, join_lobby, join_lobby_by_id, leave_lobby, load_lobby,
    start_lobby, update_lobby_settings, FirstPlayerPolicy, GameCreationPolicy, GameLobby,
    LobbyError, LobbySettings,
};
use wwmtf_app::migrations::{app_migrations, Change};
use wwmtf_app::move_history::{move_history_view, MoveHistoryError, MoveHistoryView, PlayerNames};
use wwmtf_app::move_plans::{clear_move_plan, load_move_plan, save_move_plan, MovePlanError};
use wwmtf_app::oidc_attempts::{
    claim_oidc_attempt, cleanup_oidc_attempts, consume_oidc_attempt, create_oidc_attempt,
    OidcAttemptError, OidcAttemptPurpose,
};
use wwmtf_app::payload::{GameEventV3, GameStateV3};
use wwmtf_app::presentation::{
    authenticated_user, load_authenticated_dashboard, load_authorized_game_page,
    player_play_coordinates, session_failure, PresentationError, SESSION_COOKIE_NAME,
};
use wwmtf_app::profiles::{
    can_view_profile_avatar, create_google_profile, generate_unique_handle, load_profile,
    load_profile_image, profile_image_hash, remove_custom_avatar, set_custom_avatar,
    set_custom_display_name, set_google_avatar, synchronize_google_profile, use_google_avatar,
    use_google_display_name, AvatarSource, ProfileError, ProfileFieldSource, UserProfile,
    MAX_AVATAR_INPUT_BYTES,
};
use wwmtf_app::projections::{
    game_history, projected_revision, rebuild_all_user_score_totals, rebuild_game_projections,
    user_score_totals, GameHistoryEntry, ProjectionError, UserScoreTotals,
};
use wwmtf_app::rack_preferences::{load_rack_order, save_rack_order, RackPreferenceError};
use wwmtf_app::script::{Reply, Request, RuleChoices, Script, Stop};
use wwmtf_app::sessions::{session_times, session_user};
use wwmtf_app::store::{Direction, Relation, Row, Statement, Value, Verb};

const EPOCH: Timestamp = Timestamp { unix_nanos: 0 };

fn days(count: i64) -> Span {
    Span::seconds(count * 86_400)
}

fn minutes(count: i64) -> Span {
    Span::seconds(count * 60)
}

fn after(moment: Timestamp, span: Span) -> Timestamp {
    moment.plus(span).expect("moment is on the calendar")
}

#[derive(Debug, Clone, PartialEq, Eq)]
enum Cell {
    Null,
    Text(String),
    Integer(i64),
}

type Record = BTreeMap<String, Cell>;
type Tables = BTreeMap<String, Vec<Record>>;

/// What the stub definition provider answers, and how often it was asked.
struct Provider {
    answer: Result<Option<WordDefinition>, DefinitionError>,
    calls: usize,
}

fn refused(reason: &str) -> Reply {
    Reply::Refused(reason.to_string())
}

/// A store with the application's schema, a codec, a rules engine, sessions and a provider.
struct World {
    columns: BTreeMap<String, Vec<String>>,
    /// Unique columns by the name of their index and by table.
    unique: Vec<(String, String, Vec<String>)>,
    tables: Tables,
    saved: Option<Tables>,
    events: Vec<GameEvent>,
    states: Vec<GameState>,
    definitions: Vec<WordDefinition>,
    rules: Vec<RuleProfile>,
    provider: Provider,
    held: usize,
    real_hashes: bool,
    writes: usize,
    /// Whether events cannot be written down.
    unwritable: bool,
}

/// How a workflow ended that did not reach its result.
#[derive(Debug, PartialEq, Eq)]
enum Ended<E> {
    Fail(E),
    StoreFailed,
}

fn cell(value: &Value) -> Cell {
    match value {
        Value::Null => Cell::Null,
        Value::Text(text) => Cell::Text(text.clone()),
        Value::Integer(number) => Cell::Integer(*number),
        Value::Unsigned(number) => Cell::Integer(i64::try_from(*number).expect("number fits")),
    }
}

fn meets(record: &Record, filters: &[(&'static str, Relation, Value)]) -> bool {
    filters.iter().all(|(column, relation, wanted)| {
        let held = record.get(*column).cloned().unwrap_or(Cell::Null);
        match (relation, held, cell(wanted)) {
            (_, Cell::Null, _) => false,
            (Relation::Equal, held, wanted) => held == wanted,
            (Relation::Greater, Cell::Integer(held), Cell::Integer(bound)) => held > bound,
            _ => false,
        }
    })
}

impl World {
    fn new() -> World {
        let mut columns: BTreeMap<String, Vec<String>> = BTreeMap::new();
        let mut unique = Vec::new();
        for migration in app_migrations() {
            match migration.up {
                Change::CreateTable { table, columns: listed, primary_key } => {
                    columns.insert(
                        table.name().to_string(),
                        listed.iter().map(|column| column.name.to_string()).collect(),
                    );
                    unique.push((
                        "primary".to_string(),
                        table.name().to_string(),
                        vec![primary_key.to_string()],
                    ));
                }
                Change::CreateIndex { index, table, covered, unique: distinct } => {
                    if distinct {
                        unique.push((
                            index.name().to_string(),
                            table.name().to_string(),
                            covered.iter().map(|name| name.to_string()).collect(),
                        ));
                    }
                }
                Change::DropIndex { index, .. } => {
                    unique.retain(|(name, _, _)| name != index.name());
                }
                Change::DropTable(table) => {
                    columns.remove(table.name());
                }
            }
        }
        columns
            .get_mut("games")
            .expect("there are games")
            .extend(["show_remaining_tile_count", "show_remaining_tile_faces"].map(str::to_string));
        for (table, listed) in [
            ("external_identities", vec!["issuer", "subject"]),
            ("user_profiles", vec!["user_id"]),
            ("game_lobby_members", vec!["lobby_member_id"]),
            ("game_lobby_members", vec!["lobby_id", "seat"]),
            ("auth_login_attempts", vec!["state_hash"]),
        ] {
            unique.push((
                "primary".to_string(),
                table.to_string(),
                listed.iter().map(|name| name.to_string()).collect(),
            ));
        }
        World {
            columns,
            unique,
            tables: BTreeMap::new(),
            saved: None,
            events: Vec::new(),
            states: Vec::new(),
            definitions: Vec::new(),
            rules: vec![initial_rules()],
            provider: Provider { answer: Ok(None), calls: 0 },
            held: 0,
            real_hashes: false,
            writes: 0,
            unwritable: false,
        }
    }

    fn rows(&self, table: &str) -> Vec<Record> {
        self.tables.get(table).cloned().unwrap_or_default()
    }

    fn rows_where(&self, table: &str, column: &str, text: &str) -> Vec<Record> {
        self.rows(table)
            .into_iter()
            .filter(|record| record.get(column) == Some(&Cell::Text(text.to_string())))
            .collect()
    }

    fn insert(&mut self, table: &str, cells: &[(&str, Cell)]) {
        let record = cells
            .iter()
            .map(|(column, cell)| (column.to_string(), cell.clone()))
            .collect();
        self.tables.entry(table.to_string()).or_default().push(record);
    }

    fn shown(&self, table: &str, record: &Record) -> Row {
        let mut columns = Vec::new();
        let mut names: Vec<String> = record.keys().cloned().collect();
        if let Some(listed) = self.columns.get(table) {
            names = listed.clone();
        }
        for name in names {
            let value = match record.get(&name) {
                Some(Cell::Text(text)) => Value::Text(text.clone()),
                Some(Cell::Integer(number)) => Value::Integer(*number),
                Some(Cell::Null) | None => Value::Null,
            };
            columns.push((name, value));
        }
        Row { columns }
    }

    fn check_columns(&self, statement: &Statement) {
        if let Some(listed) = self.columns.get(statement.table) {
            for (column, _) in &statement.values {
                assert!(
                    listed.iter().any(|name| name == column),
                    "{} has no column {column}",
                    statement.table
                );
            }
            for (column, _, _) in &statement.filters {
                assert!(
                    listed.iter().any(|name| name == column),
                    "{} has no column {column}",
                    statement.table
                );
            }
        }
    }

    fn collides(&self, table: &str, record: &Record) -> bool {
        let rows = self.rows(table);
        self.unique.iter().filter(|(_, name, _)| name == table).any(|(_, _, listed)| {
            rows.iter().any(|row| {
                listed.iter().all(|column| {
                    row.get(column).is_some() && row.get(column) == record.get(column)
                })
            })
        })
    }

    fn execute(&mut self, statement: &Statement) -> Reply {
        self.check_columns(statement);
        match statement.verb {
            Verb::Begin => {
                assert!(self.saved.is_none(), "transactions do not nest");
                self.saved = Some(self.tables.clone());
                return Reply::Rows(Vec::new());
            }
            Verb::Commit => {
                assert!(self.saved.take().is_some(), "a transaction is open");
                return Reply::Rows(Vec::new());
            }
            Verb::Rollback => {
                self.tables = self.saved.take().expect("a transaction is open");
                return Reply::Rows(Vec::new());
            }
            Verb::Select => {}
            _ => self.writes += 1,
        }
        let table = statement.table;
        let assign = |record: &Record| {
            let mut changed = record.clone();
            for (column, value) in &statement.values {
                changed.insert(column.to_string(), cell(value));
            }
            changed
        };
        let rows = self.rows(table);
        let (hits, others): (Vec<Record>, Vec<Record>) =
            rows.iter().cloned().partition(|record| meets(record, &statement.filters));
        let written: Vec<Record> = match statement.verb {
            Verb::Select => {
                let mut found = hits;
                if let Some((column, direction)) = statement.order {
                    found.sort_by_key(|record| match record.get(column) {
                        Some(Cell::Integer(number)) => *number,
                        _ => 0,
                    });
                    if direction == Direction::Descending {
                        found.reverse();
                    }
                }
                if let Some(limit) = statement.limit {
                    found.truncate(limit);
                }
                found
            }
            Verb::Delete => {
                self.tables.insert(table.to_string(), others);
                hits
            }
            Verb::Insert => {
                let record = assign(&Record::new());
                if self.collides(table, &record) {
                    return Reply::Failed("the row is not unique".to_string());
                }
                self.tables.entry(table.to_string()).or_default().push(record.clone());
                vec![record]
            }
            Verb::Update | Verb::Upsert => {
                if statement.verb == Verb::Upsert && hits.is_empty() {
                    let record = assign(&Record::new());
                    self.tables.entry(table.to_string()).or_default().push(record.clone());
                    vec![record]
                } else {
                    let changed = rows
                        .iter()
                        .map(|record| {
                            if meets(record, &statement.filters) {
                                assign(record)
                            } else {
                                record.clone()
                            }
                        })
                        .collect();
                    self.tables.insert(table.to_string(), changed);
                    hits.iter().map(assign).collect()
                }
            }
            Verb::Begin | Verb::Commit | Verb::Rollback => unreachable!("handled above"),
        };
        Reply::Rows(written.iter().map(|record| self.shown(table, record)).collect())
    }

    fn create_session(&mut self, user_id: &str, now: Timestamp, lifetime: Span) -> String {
        let token = format!("session-{}", format_id(fresh_id()));
        let expires = after(now, lifetime).unix_nanos / 1_000_000;
        self.insert(
            "auth_sessions",
            &[
                ("session_hash", Cell::Text(token_hash(&token))),
                ("user_id", Cell::Text(user_id.to_string())),
                ("expires_at_ms", Cell::Integer(i64::try_from(expires).expect("moment fits"))),
                ("revoked_at_ms", Cell::Null),
                ("created_at_ms", Cell::Integer(0)),
            ],
        );
        token
    }

    fn resolve_session(&self, token: &str, now: Timestamp) -> Option<String> {
        let now_ms = i64::try_from(now.unix_nanos / 1_000_000).expect("moment fits");
        let rows = self.rows_where("auth_sessions", "session_hash", &token_hash(token));
        let row = rows.first()?;
        if row.get("revoked_at_ms") != Some(&Cell::Null) {
            return None;
        }
        match (row.get("user_id"), row.get("expires_at_ms")) {
            (Some(Cell::Text(user)), Some(Cell::Integer(expires))) if *expires > now_ms => {
                Some(user.clone())
            }
            _ => None,
        }
    }

    fn index(payload: &str, kind: &str) -> Option<usize> {
        payload.strip_prefix(kind)?.parse().ok()
    }

    fn answer(&mut self, request: &Request<'_>) -> Reply {
        match request {
            Request::Store(statement) => self.execute(statement),
            Request::EncodeEvent(_) if self.unwritable => refused("no ink"),
            Request::EncodeEvent(event) => {
                self.events.push(GameEventV3::write((*event).clone()).read());
                Reply::Text(format!("event:{}", self.events.len() - 1))
            }
            Request::DecodeEvent { payload, .. } => {
                match World::index(payload, "event:").and_then(|at| self.events.get(at)) {
                    Some(event) => Reply::Event(event.clone()),
                    None => refused("it is unknown"),
                }
            }
            Request::EncodeState(state) => {
                self.states.push(GameStateV3::write((*state).clone()).read());
                Reply::Text(format!("state:{}", self.states.len() - 1))
            }
            Request::DecodeState { payload, .. } => {
                match World::index(payload, "state:").and_then(|at| self.states.get(at)) {
                    Some(state) => Reply::State(state.clone()),
                    None => refused("it is unknown"),
                }
            }
            Request::Apply(state, event) => match apply_event(state.cloned(), event) {
                Some(state) => Reply::State(state),
                None => refused("the event does not fit"),
            },
            Request::Decide { state, actor, command } => match decide(state, *actor, command) {
                Some(events) => Reply::Events(events),
                None => refused("the command is illegal"),
            },
            Request::Analyze { .. } => Reply::Words(vec!["WORD".to_string()]),
            Request::PinDictionary(_) | Request::FindDictionary(_) => Reply::Accepted,
            Request::FindRules(reference) => {
                match self.rules.iter().find(|rules| rules.reference == **reference) {
                    Some(rules) => Reply::Rules(rules.clone()),
                    None => refused("it is unknown"),
                }
            }
            Request::InitialRules => Reply::Rules(initial_rules()),
            Request::GenerateRules(choices) => {
                let rules = generated_rules(*choices);
                self.rules.push(rules.clone());
                Reply::Rules(rules)
            }
            Request::Initialize(setup) => Reply::Event(initialize(
                GameMetadata {
                    id: setup.game_id,
                    rules: setup.rules.reference.clone(),
                    dictionary: DictionaryRef {
                        id: setup.dictionary.id.to_string(),
                        version: setup.dictionary.version,
                        checksum: setup.dictionary.checksum.to_string(),
                    },
                    created_at: setup.created_at,
                },
                &setup.players,
                setup.first_player,
                setup.rules,
                setup.shuffle_seed,
            )),
            Request::FreshIds(count) => Reply::Ids(fresh_ids(*count)),
            Request::FreshBytes(count) => Reply::Bytes(fresh_bytes(*count).expect("bytes come")),
            Request::HashPassword(password) => {
                if self.real_hashes {
                    match hash_password(password) {
                        Ok(hash) => Reply::Text(hash),
                        Err(error) => Reply::Refused(error.message()),
                    }
                } else {
                    Reply::Text("hash".to_string())
                }
            }
            Request::IssueSession { user_id, now, lifetime } => {
                Reply::Text(self.create_session(user_id, *now, *lifetime))
            }
            Request::ResolveSession { token, now } => match self.resolve_session(token, *now) {
                Some(user) => Reply::Text(user),
                None => refused("it is unknown"),
            },
            Request::NormalizeWord(word) => {
                if !word.is_empty() && word.chars().all(|letter| letter.is_ascii_alphabetic()) {
                    Reply::Text(word.to_ascii_uppercase())
                } else {
                    refused("the word is malformed")
                }
            }
            Request::HoldLookup(_) => {
                self.held += 1;
                Reply::Accepted
            }
            Request::LookUpWord(_) => {
                self.provider.calls += 1;
                match &self.provider.answer {
                    Ok(Some(definition)) => Reply::Definition(definition.clone()),
                    Ok(None) => Reply::NoDefinition,
                    Err(error) => Reply::ProviderError(error.clone()),
                }
            }
            Request::EncodeDefinition(definition) => {
                self.definitions.push((*definition).clone());
                Reply::Text(format!("definition:{}", self.definitions.len() - 1))
            }
            Request::DecodeDefinition(payload) => {
                match World::index(payload, "definition:").and_then(|at| self.definitions.get(at)) {
                    Some(definition) => Reply::Definition(definition.clone()),
                    None => refused("it is unknown"),
                }
            }
            Request::ExchangeCode { .. } | Request::FindKeys { .. } => {
                refused("there is no provider")
            }
        }
    }

    /// Runs a workflow to its end, performing what it asks for. A transaction that it leaves open
    /// is rolled back.
    fn attempt<C, R, E>(
        &mut self,
        context: &C,
        workflow: impl for<'a> Fn(&mut Script<'a>, &'a C) -> Result<R, Stop<'a, E>>,
    ) -> Result<R, Ended<E>> {
        let mut replies: Vec<Reply> = Vec::new();
        loop {
            let reply = {
                let mut script = Script::new(&replies);
                let ended = match workflow(&mut script, context) {
                    Ok(value) => Ok(value),
                    Err(Stop::Wait(request)) => Err(Some(self.answer(&request))),
                    Err(Stop::Fail(error)) => {
                        self.close();
                        return Err(Ended::Fail(error));
                    }
                    Err(Stop::Failed(_)) => Err(None),
                    Err(Stop::Mismatch(number)) => panic!("reply {number} has the wrong kind"),
                };
                match ended {
                    Ok(value) => {
                        self.close();
                        return Ok(value);
                    }
                    Err(Some(reply)) => reply,
                    Err(None) => {
                        self.close();
                        return Err(Ended::StoreFailed);
                    }
                }
            };
            replies.push(reply);
        }
    }

    fn close(&mut self) {
        if let Some(tables) = self.saved.take() {
            self.tables = tables;
        }
    }

    fn run<C, R, E>(
        &mut self,
        context: &C,
        workflow: impl for<'a> Fn(&mut Script<'a>, &'a C) -> Result<R, Stop<'a, E>>,
    ) -> Result<R, E> {
        match self.attempt(context, workflow) {
            Ok(value) => Ok(value),
            Err(Ended::Fail(error)) => Err(error),
            Err(Ended::StoreFailed) => panic!("the store failed"),
        }
    }

    fn register(&mut self, name: &str, password: &str) -> Result<String, AccountError> {
        self.run(&(), |script, _| register(script, name, password, EPOCH))
    }

    fn authenticate(&mut self, name: &str, password: &str) -> Result<String, AccountError> {
        self.run(&(), |script, _| authenticate(script, name, password))
    }

    fn create_challenge(&mut self, from: &str, to: &str) -> Result<String, ChallengeError> {
        self.run(&(), |script, _| create_challenge(script, from, to, EPOCH))
    }

    fn accept_challenge(
        &mut self,
        challenge: &str,
        user: &str,
        seed: u64,
    ) -> Result<GameId, ChallengeError> {
        self.run(&(), |script, _| accept_challenge(script, challenge, user, EPOCH, seed))
    }

    fn recover_game(&mut self, game: GameId) -> Result<GameState, JournalError> {
        self.run(&(), |script, _| recover_game(script, game).map(|state| state.clone()))
    }

    fn append(
        &mut self,
        game: GameId,
        command: &str,
        key: &str,
        expected: u64,
        events: &Vec<GameEvent>,
    ) -> Result<u64, JournalError> {
        self.run(events, |script, events| {
            let listed: Vec<&GameEvent> = events.iter().collect();
            append_events_transactionally(script, game, command, key, expected, &listed)
        })
    }

    fn load_events(&mut self, game: GameId, behind: u64) -> Result<Vec<Loaded>, JournalError> {
        self.run(&(), |script, _| {
            load_events(script, game, behind).map(|events| {
                events
                    .iter()
                    .map(|event| Loaded {
                        revision: event.revision,
                        command_id: event.command_id.clone(),
                        idempotency_key: event.idempotency_key.clone(),
                        payload_version: event.payload_version,
                        event: event.event.clone(),
                    })
                    .collect()
            })
        })
    }

    fn store_snapshot(&mut self, game: GameId, state: &GameState) -> Result<(), JournalError> {
        self.run(state, |script, state| store_snapshot(script, game, state, 0))
    }

    fn load_latest_snapshot(&mut self, game: GameId) -> Result<Option<GameState>, JournalError> {
        self.run(&(), |script, _| {
            load_latest_snapshot(script, game).map(|state| state.cloned())
        })
    }

    fn submit(
        &mut self,
        game: GameId,
        user: &str,
        command_id: &str,
        key: &str,
        revision: u64,
        command: &GameCommand,
    ) -> Result<GameState, GameServiceError> {
        self.run(command, |script, command| {
            submit_game_command(script, game, user, command_id, key, revision, command, 0)
                .map(|state| state.clone())
        })
    }

    fn rebuild(
        &mut self,
        state: &GameState,
        events: &Vec<GameEvent>,
    ) -> Result<(), ProjectionError> {
        let context = (state.clone(), events.clone());
        self.run(&context, |script, (state, events)| {
            let listed: Vec<&GameEvent> = events.iter().collect();
            rebuild_game_projections(script, state, &listed, 0)
        })
    }

    fn load_rack_order(&mut self, game: GameId, user: &str) -> Result<Vec<u16>, RackPreferenceError> {
        self.run(&(), |script, _| load_rack_order(script, game, user))
    }

    fn save_rack_order(
        &mut self,
        game: GameId,
        user: &str,
        order: &[u16],
    ) -> Result<Vec<u16>, RackPreferenceError> {
        self.run(&(), |script, _| save_rack_order(script, game, user, order, 1))
    }

    fn resolve(
        &mut self,
        identity: &VerifiedExternalIdentity,
    ) -> Result<ResolvedExternalAccount, ExternalIdentityError> {
        self.run(&(), |script, _| resolve_or_create_external_account(script, identity, EPOCH))
    }

    fn link(
        &mut self,
        user: &str,
        identity: &VerifiedExternalIdentity,
    ) -> Result<(), ExternalIdentityError> {
        self.run(&(), |script, _| link_external_identity(script, user, identity, EPOCH))
    }

    fn user_for(&mut self, issuer: &str, subject: &str) -> Option<String> {
        self.run(&(), |script, _| user_for_external_identity(script, issuer, subject))
            .expect("identity loads")
    }

    fn migrate(
        &mut self,
        user: &str,
        identity: &VerifiedExternalIdentity,
        now: Timestamp,
    ) -> Result<String, GoogleAccountWorkflowError> {
        self.run(&(), |script, _| {
            complete_legacy_google_migration(script, user, identity, now, days(30))
                .map(|token| token.clone())
        })
    }

    fn load_profile(&mut self, user: &str) -> Option<UserProfile> {
        self.run(&(), |script, _| load_profile(script, user)).expect("profile loads")
    }

    fn lookup(
        &mut self,
        provider: bool,
        word: &str,
        now_ms: i64,
    ) -> Result<DefinitionLookup, DefinitionError> {
        self.run(&(), |script, _| lookup_definition(script, provider, word, now_ms))
    }

    fn create_invitation(&mut self, user: &str, lifetime: Span) -> (String, String) {
        self.run(&(), |script, _| {
            create_invitation(script, user, EPOCH, lifetime)
                .map(|(id, token)| (id, token.expose().to_string()))
        })
        .expect("invitation creates")
    }

    fn redeem(&mut self, token: &str, user: &str, now: Timestamp) -> Result<String, InvitationError> {
        self.run(&(), |script, _| redeem_invitation(script, token, user, now))
    }

    fn create_lobby(
        &mut self,
        user: &str,
        settings: &LobbySettings,
        policy: GameCreationPolicy,
    ) -> Result<(String, String), LobbyError> {
        self.run(&(), |script, _| {
            create_lobby(script, user, settings, policy, EPOCH, days(1))
                .map(|(id, token)| (id, token.expose().to_string()))
        })
    }

    fn join_lobby(
        &mut self,
        token: &str,
        user: &str,
        policy: GameCreationPolicy,
    ) -> Result<String, LobbyError> {
        self.run(&(), |script, _| join_lobby(script, token, user, policy, EPOCH))
    }

    fn join_lobby_by_id(
        &mut self,
        lobby: &str,
        user: &str,
        policy: GameCreationPolicy,
    ) -> Result<String, LobbyError> {
        self.run(&(), |script, _| join_lobby_by_id(script, lobby, user, policy, EPOCH))
    }

    fn start_lobby(
        &mut self,
        lobby: &str,
        user: &str,
        policy: GameCreationPolicy,
        seed: u64,
    ) -> Result<GameId, LobbyError> {
        self.run(&(), |script, _| start_lobby(script, lobby, user, policy, EPOCH, seed))
    }

    fn load_lobby(&mut self, lobby: &str, user: &str) -> Result<GameLobby, LobbyError> {
        self.run(&(), |script, _| load_lobby(script, lobby, user))
    }

    fn two_players(&mut self) -> (String, String) {
        let alice = self.register("alice", "correct horse battery staple").expect("Alice registers");
        let bob = self.register("bob", "another correct horse battery").expect("Bob registers");
        (alice, bob)
    }
}

/// One journal event as a test keeps it.
#[derive(Debug, Clone, PartialEq, Eq)]
struct Loaded {
    revision: u64,
    command_id: String,
    idempotency_key: String,
    payload_version: u32,
    event: GameEvent,
}

fn initial_rules() -> RuleProfile {
    RuleProfile {
        reference: RuleProfileRef { id: "classic-en".to_string(), version: 1 },
        board_size: 15,
        start: Coordinate::new(7, 7),
        premiums: BTreeMap::new(),
        tiles: vec![
            TileDefinition { face: TileFace::Letter('E'), count: 60, points: 1 },
            TileDefinition { face: TileFace::Letter('Q'), count: 38, points: 10 },
            TileDefinition { face: TileFace::Blank, count: 2, points: 0 },
        ],
        rack_size: 7,
        full_rack_bonus: 50,
        minimum_tiles_for_exchange: 7,
        scoreless_turn_limit: 6,
        dictionary_id: "enable1-en".to_string(),
    }
}

fn generated_rules(choices: RuleChoices) -> RuleProfile {
    let mut rules = initial_rules();
    rules.reference.id = format!("generated-{}-{}", choices.board_size, choices.tile_set_count);
    rules.board_size = choices.board_size;
    for tile in &mut rules.tiles {
        tile.count *= choices.tile_set_count;
    }
    rules
}

fn tile_count(rules: &RuleProfile) -> usize {
    rules.tiles.iter().map(|tile| usize::from(tile.count)).sum()
}

fn initialize(
    metadata: GameMetadata,
    players: &[PlayerId],
    first_player: PlayerId,
    rules: &RuleProfile,
    seed: u64,
) -> GameEvent {
    let mut bag = Vec::new();
    for definition in &rules.tiles {
        for _ in 0..definition.count {
            let id = u16::try_from(bag.len()).expect("tile number fits");
            bag.push(Tile { id, face: definition.face, points: definition.points });
        }
    }
    let mut state = seed.wrapping_mul(2).wrapping_add(1);
    for at in (1..bag.len()).rev() {
        state = state.wrapping_mul(6_364_136_223_846_793_005).wrapping_add(1_442_695_040_888_963_407);
        let other = usize::try_from((state >> 33) % (at as u64 + 1)).expect("place fits");
        bag.swap(at, other);
    }
    let mut racks = BTreeMap::new();
    for player in players {
        let rack: Vec<Tile> =
            (0..rules.rack_size).map(|_| bag.pop().expect("bag suffices")).collect();
        racks.insert(*player, rack);
    }
    GameEvent::GameStarted {
        metadata,
        players: players.to_vec(),
        first_player,
        rules: rules.clone(),
        racks,
        bag,
    }
}

fn next_player(state: &GameState) -> PlayerId {
    let at = state
        .players
        .iter()
        .position(|player| *player == state.active_player)
        .expect("active player is seated");
    state.players[(at + 1) % state.players.len()]
}

fn apply_event(state: Option<GameState>, event: &GameEvent) -> Option<GameState> {
    let mut state = match (state, event) {
        (None, GameEvent::GameStarted { metadata, players, first_player, rules, racks, bag }) => {
            return Some(GameState {
                metadata: metadata.clone(),
                rules: rules.clone(),
                players: players.clone(),
                active_players: players.iter().copied().collect(),
                active_player: *first_player,
                board: BTreeMap::new(),
                racks: racks.clone(),
                bag: bag.clone(),
                scores: players.iter().map(|player| (*player, 0)).collect(),
                scoreless_turns: 0,
                consecutive_passes: 0,
                winner: None,
                leaders: BTreeSet::new(),
                completion_reason: None,
                status: GameStatus::Active,
                revision: 1,
            });
        }
        (None, _) | (Some(_), GameEvent::GameStarted { .. }) => return None,
        (Some(state), _) => state,
    };
    match event {
        GameEvent::GameStarted { .. } => return None,
        GameEvent::TurnPassed { player_id } => {
            if *player_id != state.active_player {
                return None;
            }
            state.consecutive_passes += 1;
            state.scoreless_turns += 1;
            state.active_player = next_player(&state);
        }
        GameEvent::TilesPlayed { player_id, placements, score, drawn } => {
            let rack = state.racks.get_mut(player_id)?;
            for (key, placed) in placements {
                rack.retain(|tile| tile.id != placed.tile.id);
                state.board.insert(*key, *placed);
            }
            rack.extend(drawn.iter().copied());
            state.bag.retain(|tile| !drawn.iter().any(|other| other.id == tile.id));
            *state.scores.get_mut(player_id)? += score;
            state.consecutive_passes = 0;
            state.scoreless_turns = 0;
            state.active_player = next_player(&state);
        }
        GameEvent::TilesExchanged { player_id, returned, drawn } => {
            let rack = state.racks.get_mut(player_id)?;
            rack.retain(|tile| !returned.iter().any(|other| other.id == tile.id));
            rack.extend(drawn.iter().copied());
            state.bag.retain(|tile| !drawn.iter().any(|other| other.id == tile.id));
            state.bag.extend(returned.iter().copied());
            state.active_player = next_player(&state);
        }
        GameEvent::GameResigned { player_id, winner } => {
            state.active_players.remove(player_id);
            if let Some(winner) = winner {
                state.winner = Some(*winner);
                state.status = GameStatus::Completed;
                state.completion_reason = Some(CompletionReason::Resignation);
            }
        }
        GameEvent::GameCompleted { scores, winner, leaders, reason } => {
            state.scores = scores.clone();
            state.winner = *winner;
            state.leaders = leaders.clone();
            state.completion_reason = Some(*reason);
            state.status = GameStatus::Completed;
        }
    }
    state.revision += 1;
    Some(state)
}

fn replay(events: &[GameEvent]) -> GameState {
    let mut state = None;
    for event in events {
        state = Some(apply_event(state, event).expect("event applies"));
    }
    state.expect("there are events")
}

fn decide(state: &GameState, actor: PlayerId, command: &GameCommand) -> Option<Vec<GameEvent>> {
    if actor != state.active_player || state.status != GameStatus::Active {
        return None;
    }
    match command {
        GameCommand::Pass => Some(vec![GameEvent::TurnPassed { player_id: actor }]),
        GameCommand::Exchange { tile_ids } => {
            let rack = state.racks.get(&actor)?;
            let returned: Vec<Tile> =
                rack.iter().copied().filter(|tile| tile_ids.contains(&tile.id)).collect();
            if returned.len() != tile_ids.len() {
                return None;
            }
            let drawn = state.bag.iter().rev().copied().take(returned.len()).collect();
            Some(vec![GameEvent::TilesExchanged { player_id: actor, returned, drawn }])
        }
        GameCommand::Resign => {
            let winner = next_player(state);
            Some(vec![GameEvent::GameResigned { player_id: actor, winner: Some(winner) }])
        }
        GameCommand::Play { .. } => None,
    }
}

fn metadata(game_id: GameId) -> GameMetadata {
    GameMetadata {
        id: game_id,
        rules: RuleProfileRef { id: "classic-en".to_string(), version: 1 },
        dictionary: DictionaryRef {
            id: "enable1-en".to_string(),
            version: 1,
            checksum: "sha256:test".to_string(),
        },
        created_at: EPOCH,
    }
}

/// A store with one game at revision zero and the state that its start leads to.
fn initialized_database() -> (World, GameId, GameState) {
    let mut world = World::new();
    let game_id = fresh_id();
    let players = [fresh_id(), fresh_id()];
    let started = initialize(metadata(game_id), &players, players[0], &initial_rules(), 1);
    let state = replay(&[started]);
    world.insert(
        "games",
        &[
            ("game_id", Cell::Text(format_id(game_id))),
            ("rules_id", Cell::Text("classic-en".to_string())),
            ("rules_version", Cell::Integer(1)),
            ("dictionary_id", Cell::Text("enable1-en".to_string())),
            ("dictionary_version", Cell::Integer(1)),
            ("dictionary_checksum", Cell::Text("sha256:test".to_string())),
            ("canonical_revision", Cell::Integer(0)),
            ("status", Cell::Text("ACTIVE".to_string())),
            ("created_at_ms", Cell::Integer(0)),
            ("updated_at_ms", Cell::Integer(0)),
        ],
    );
    (world, game_id, state)
}

fn started_event(state: &GameState) -> GameEvent {
    GameEvent::GameStarted {
        metadata: state.metadata.clone(),
        players: state.players.clone(),
        first_player: state.players[0],
        rules: state.rules.clone(),
        racks: state.racks.clone(),
        bag: state.bag.clone(),
    }
}

fn google(subject: &str, name: &str, picture: Option<&str>) -> VerifiedExternalIdentity {
    VerifiedExternalIdentity::google(
        "https://accounts.google.com".to_string(),
        subject.to_string(),
        name.to_string(),
        picture.map(str::to_string),
    )
    .expect("identity validates")
}

fn definition() -> WordDefinition {
    WordDefinition {
        word: "WORD".to_string(),
        meanings: vec![DefinitionMeaning {
            part_of_speech: "noun".to_string(),
            definitions: vec!["A unit of language.".to_string()],
        }],
        source_url: "https://en.wiktionary.org/wiki/word".to_string(),
        license_name: "CC BY-SA 3.0".to_string(),
        license_url: "https://creativecommons.org/licenses/by-sa/3.0".to_string(),
    }
}

fn text_in(record: &Record, column: &str) -> Option<String> {
    match record.get(column) {
        Some(Cell::Text(text)) => Some(text.clone()),
        _ => None,
    }
}

fn png(width: u32, height: u32) -> Vec<u8> {
    let mut source = image::RgbaImage::new(width, height);
    for pixel in source.pixels_mut() {
        *pixel = image::Rgba([20, 40, 60, 255]);
    }
    let mut bytes = Vec::new();
    image::DynamicImage::ImageRgba8(source)
        .write_to(&mut std::io::Cursor::new(&mut bytes), image::ImageFormat::Png)
        .expect("picture encodes");
    bytes
}

#[test]
fn registration_and_authentication_use_turso_storage() {
    let mut world = World::new();
    world.real_hashes = true;
    let user_id = world
        .register("Alice", "correct horse battery staple")
        .expect("registration succeeds");
    assert_eq!(
        world
            .authenticate("ALICE", "correct horse battery staple")
            .expect("authentication succeeds"),
        user_id
    );
    assert!(matches!(
        world.authenticate("alice", "wrong password"),
        Err(AccountError::InvalidCredentials)
    ));
}

#[test]
fn registration_refuses_taken_weak_and_malformed_credentials() {
    let mut world = World::new();
    world.register("Alice", "correct horse battery staple").expect("registration succeeds");
    assert_eq!(
        world.register(" aLiCe ", "correct horse battery staple"),
        Err(AccountError::UsernameTaken)
    );
    assert_eq!(world.register("bob", "too short"), Err(AccountError::WeakPassword));
    assert_eq!(
        world.register("a!", "correct horse battery staple"),
        Err(AccountError::InvalidUsername)
    );
    assert_eq!(world.authenticate("nobody", "x"), Err(AccountError::InvalidCredentials));
    assert_eq!(world.authenticate("a!", "x"), Err(AccountError::InvalidCredentials));
    assert_eq!(world.rows("users").len(), 1);
}

#[test]
fn old_hashes_are_replaced_at_the_next_login() {
    let mut world = World::new();
    world.real_hashes = true;
    let password = "correct horse battery staple";
    let user_id = world.register("alice", password).expect("registration succeeds");
    let weak = argon2::Argon2::new(
        argon2::Algorithm::Argon2id,
        argon2::Version::V0x13,
        argon2::Params::new(1_024, 1, 1, None).expect("parameters fit"),
    );
    let salt = argon2::password_hash::SaltString::from_b64("c2FsdHNhbHRzYWx0").expect("salt");
    let old = argon2::PasswordHasher::hash_password(&weak, password.as_bytes(), &salt)
        .expect("password hashes")
        .to_string();
    assert!(password_needs_upgrade(&old));
    for record in world.tables.get_mut("password_credentials").expect("table exists") {
        record.insert("password_hash".to_string(), Cell::Text(old.clone()));
    }
    assert_eq!(world.authenticate("alice", password), Ok(user_id));
    let stored = text_in(&world.rows("password_credentials")[0], "password_hash").expect("hash");
    assert_ne!(stored, old);
    assert!(!password_needs_upgrade(&stored));
    assert_eq!(verify_password(password, &stored), Ok(true));
}

#[test]
fn challenge_lifecycle_creates_one_authorized_game() {
    let mut world = World::new();
    let (alice, bob) = world.two_players();
    assert_eq!(
        world
            .run(&(), |script, _| find_user_by_username(script, "bob"))
            .expect("lookup succeeds"),
        Some((bob.clone(), "bob".to_string()))
    );
    let challenge = world.create_challenge(&alice, &bob).expect("challenge creates");
    assert!(matches!(world.create_challenge(&alice, &bob), Err(ChallengeError::Duplicate)));
    let game = world.accept_challenge(&challenge, &bob, 4).expect("challenge accepts");
    assert!(matches!(
        world.accept_challenge(&challenge, &bob, 4),
        Err(ChallengeError::Unauthorized)
    ));
    assert_eq!(world.rows_where("game_players", "game_id", &format_id(game)).len(), 2);
}

#[test]
fn concurrent_games_and_independent_tab_revisions_remain_isolated() {
    let mut world = World::new();
    let (alice, bob) = world.two_players();
    let mut games = Vec::new();
    for seed in [10_u64, 20, 30] {
        let challenge = world.create_challenge(&alice, &bob).expect("challenge creates");
        games.push(world.accept_challenge(&challenge, &bob, seed).expect("game creates"));
    }
    let tab_one = world.recover_game(games[0]).expect("first game loads");
    let tab_two = world.recover_game(games[1]).expect("second game loads");
    let pass = GameEvent::TurnPassed { player_id: tab_one.active_player };
    world
        .append(games[0], "tab-one-command", "tab-one-idempotency", tab_one.revision, &vec![pass])
        .expect("first game advances");
    let tab_one_updated = world.recover_game(games[0]).expect("first game reloads");
    let tab_two_unchanged = world.recover_game(games[1]).expect("second game reloads");
    assert_eq!(tab_one_updated.revision, tab_one.revision + 1);
    assert_eq!(tab_two_unchanged, tab_two);
    assert_ne!(tab_one_updated.metadata.id, tab_two_unchanged.metadata.id);
    assert_eq!(world.rows("games").len(), 3);
}

#[test]
fn challenge_decline_cancel_and_authorization_are_enforced() {
    let mut world = World::new();
    let (alice, bob) = world.two_players();
    let challenge = world.create_challenge(&alice, &bob).expect("challenge creates");
    assert!(matches!(
        world.run(&(), |script, _| cancel_challenge(script, &challenge, &bob, EPOCH)),
        Err(ChallengeError::Unauthorized)
    ));
    world
        .run(&(), |script, _| decline_challenge(script, &challenge, &bob, EPOCH))
        .expect("recipient declines");
    let challenge = world.create_challenge(&bob, &alice).expect("reverse challenge creates");
    world
        .run(&(), |script, _| cancel_challenge(script, &challenge, &bob, EPOCH))
        .expect("creator cancels");
    assert_eq!(
        world.accept_challenge(&challenge, &alice, 1),
        Err(ChallengeError::Unauthorized)
    );
}

#[test]
fn resolved_challenges_stay_resolved() {
    let mut world = World::new();
    let (alice, bob) = world.two_players();
    let challenge = world.create_challenge(&alice, &bob).expect("challenge creates");
    world
        .run(&(), |script, _| decline_challenge(script, &challenge, &bob, EPOCH))
        .expect("recipient declines");
    let before = world.rows("challenges");
    assert_eq!(world.accept_challenge(&challenge, &bob, 1), Err(ChallengeError::Unauthorized));
    assert_eq!(
        world.run(&(), |script, _| cancel_challenge(script, &challenge, &alice, EPOCH)),
        Err(ChallengeError::Unauthorized)
    );
    assert_eq!(world.rows("challenges"), before);
    assert!(world.rows("games").is_empty());
}

#[test]
fn nobody_challenges_themselves() {
    let mut world = World::new();
    let (alice, _) = world.two_players();
    assert_eq!(world.create_challenge(&alice, &alice), Err(ChallengeError::Invalid));
}

#[test]
fn history_describes_public_actions_without_private_tiles() {
    let mut world = World::new();
    let players = [fresh_id(), fresh_id()];
    let profile = initial_rules();
    let started = initialize(metadata(fresh_id()), &players, players[0], &profile, 4);
    let passed = GameEvent::TurnPassed { player_id: players[0] };
    let resigned = GameEvent::GameResigned { player_id: players[1], winner: Some(players[0]) };
    let names = PlayerNames {
        named: vec![(players[0], "Alice".to_string())],
        otherwise: "Bob".to_string(),
    };
    let context = (vec![started, passed, resigned], profile);
    let history: Vec<MoveHistoryView> = world
        .run(&context, |script, (events, profile)| {
            let listed: Vec<&GameEvent> = events.iter().collect();
            move_history_view(script, &listed, profile, &names)
        })
        .expect("history derives");
    assert_eq!(history[1].description, "Alice passed.");
    assert_eq!(history[1].score_summary, "Alice 0 \u{2013} Bob 0");
    assert_eq!(history[2].description, "Bob resigned; Alice won.");
}

#[test]
fn history_names_the_words_of_a_play() {
    let mut world = World::new();
    let players = [fresh_id(), fresh_id()];
    let profile = initial_rules();
    let started = initialize(metadata(fresh_id()), &players, players[0], &profile, 4);
    let state = replay(&[started.clone()]);
    let tile = state.racks[&players[0]][0];
    let played = GameEvent::TilesPlayed {
        player_id: players[0],
        placements: BTreeMap::from([(
            Coordinate::new(7, 7).key(),
            BoardTile { tile, letter: 'E' },
        )]),
        score: 2,
        drawn: Vec::new(),
    };
    let names = PlayerNames {
        named: vec![(players[0], "Alice".to_string())],
        otherwise: "Bob".to_string(),
    };
    let context = (vec![started, played], profile);
    let history: Vec<MoveHistoryView> = world
        .run(&context, |script, (events, profile)| {
            let listed: Vec<&GameEvent> = events.iter().collect();
            move_history_view(script, &listed, profile, &names)
        })
        .expect("history derives");
    assert_eq!(history[1].played_words, vec!["WORD".to_string()]);
    assert_eq!(history[1].score_summary, "Alice 2 \u{2013} Bob 0");
}

#[test]
fn a_history_that_does_not_replay_is_refused() {
    let mut world = World::new();
    let players = [fresh_id(), fresh_id()];
    let profile = initial_rules();
    let names = PlayerNames {
        named: vec![(players[0], "Alice".to_string())],
        otherwise: "Bob".to_string(),
    };
    let context = (vec![GameEvent::TurnPassed { player_id: players[0] }], profile);
    let history = world.run(&context, |script, (events, profile)| {
        let listed: Vec<&GameEvent> = events.iter().collect();
        move_history_view(script, &listed, profile, &names)
    });
    assert_eq!(history, Err(MoveHistoryError::Replay(ReplayError::MissingStart)));
    let started = initialize(metadata(fresh_id()), &players, players[0], &initial_rules(), 4);
    let passed = GameEvent::TurnPassed { player_id: players[1] };
    let context = (vec![started, passed], initial_rules());
    let history = world.run(&context, |script, (events, profile)| {
        let listed: Vec<&GameEvent> = events.iter().collect();
        move_history_view(script, &listed, profile, &names)
    });
    let reason = "the event does not fit".to_string();
    assert_eq!(history, Err(MoveHistoryError::Replay(ReplayError::Refused(reason))));
}

#[test]
fn viewer_projection_contains_only_their_private_rack() {
    let players = [fresh_id(), fresh_id()];
    let started = initialize(metadata(fresh_id()), &players, players[0], &initial_rules(), 4);
    let state = replay(&[started]);
    let rules = initial_rules();
    let first = game_view(&state, players[0], Some(&rules)).expect("member projects");
    let second = game_view(&state, players[1], Some(&rules)).expect("member projects");
    assert_eq!(first.rack.len(), 7);
    assert_eq!(second.rack.len(), 7);
    assert_ne!(first.rack, second.rack);
    assert!(game_view(&state, fresh_id(), Some(&rules)).is_none());
}

#[test]
fn concurrent_cache_misses_are_coalesced() {
    let mut world = World::new();
    world.provider.answer = Ok(Some(definition()));
    let first = world.lookup(true, "WORD", 10);
    let second = world.lookup(true, "WORD", 10);
    assert!(matches!(first, Ok(DefinitionLookup::Found(_))));
    assert!(matches!(second, Ok(DefinitionLookup::Found(_))));
    assert_eq!(world.provider.calls, 1);
    assert_eq!(world.held, 1);
}

#[test]
fn a_lookup_that_waited_reads_the_cache_again() {
    let mut world = World::new();
    world.provider.answer = Ok(Some(definition()));
    let mut replies: Vec<Reply> = Vec::new();
    // The first lookup stops where it has the exclusive right.
    loop {
        let reply = {
            let mut script = Script::new(&replies);
            match lookup_definition(&mut script, true, "WORD", 10) {
                Err(Stop::Wait(request)) => {
                    if matches!(request, Request::HoldLookup(_)) {
                        None
                    } else {
                        Some(world.answer(&request))
                    }
                }
                _ => panic!("the lookup waits"),
            }
        };
        match reply {
            Some(reply) => replies.push(reply),
            None => break,
        }
    }
    assert!(matches!(world.lookup(true, "WORD", 10), Ok(DefinitionLookup::Found(_))));
    assert_eq!(world.provider.calls, 1);
    replies.push(Reply::Accepted);
    let found = loop {
        let reply = {
            let mut script = Script::new(&replies);
            match lookup_definition(&mut script, true, "WORD", 10) {
                Err(Stop::Wait(request)) => world.answer(&request),
                Ok(found) => break found,
                _ => panic!("the lookup ends"),
            }
        };
        replies.push(reply);
    };
    assert_eq!(found, DefinitionLookup::Found(definition()));
    assert_eq!(world.provider.calls, 1);
}

#[test]
fn cache_hits_expire_and_provider_failures_are_not_cached() {
    let mut world = World::new();
    world.provider.answer = Ok(Some(definition()));
    assert!(matches!(world.lookup(true, "word", 10), Ok(DefinitionLookup::Found(_))));
    assert!(matches!(world.lookup(true, "WORD", 11), Ok(DefinitionLookup::Found(_))));
    assert_eq!(world.provider.calls, 1);
    assert!(matches!(
        world.lookup(true, "WORD", 10 + SUCCESS_TTL_MS),
        Ok(DefinitionLookup::Found(_))
    ));
    assert_eq!(world.provider.calls, 2);

    world.provider = Provider { answer: Err(DefinitionError::ProviderStatus(503)), calls: 0 };
    let writes = world.writes;
    assert_eq!(
        world.lookup(true, "OTHER", 20).expect("failure is recoverable"),
        DefinitionLookup::Unavailable(DefinitionUnavailableReason::ProviderUnavailable)
    );
    assert_eq!(
        world.lookup(true, "OTHER", 21).expect("failure retries"),
        DefinitionLookup::Unavailable(DefinitionUnavailableReason::ProviderUnavailable)
    );
    assert_eq!(world.provider.calls, 2);
    assert_eq!(world.writes, writes);
}

#[test]
fn disabled_provider_has_an_explicit_lookup_state() {
    let mut world = World::new();
    assert_eq!(
        world.lookup(false, "WORD", 10).expect("disabled lookup resolves"),
        DefinitionLookup::Unavailable(DefinitionUnavailableReason::Disabled)
    );
    assert_eq!(world.provider.calls, 0);
}

#[test]
fn provider_confirmed_misses_are_negatively_cached() {
    let mut world = World::new();
    assert_eq!(
        world.lookup(true, "ZYZZYVA", 10).expect("miss resolves"),
        DefinitionLookup::Missing
    );
    assert_eq!(
        world.lookup(true, "ZYZZYVA", 11).expect("cached miss resolves"),
        DefinitionLookup::Missing
    );
    assert_eq!(world.provider.calls, 1);
    assert_eq!(
        world.lookup(true, "ZYZZYVA", 10 + MISSING_TTL_MS).expect("miss is asked again"),
        DefinitionLookup::Missing
    );
    assert_eq!(world.provider.calls, 2);
}

#[test]
fn malformed_words_and_cache_rows_fail() {
    let mut world = World::new();
    assert_eq!(world.lookup(true, "no word", 10), Err(DefinitionError::InvalidWord));
    world.provider.answer = Ok(Some(definition()));
    world.lookup(true, "WORD", 10).expect("definition comes");
    for record in world.tables.get_mut("definition_cache").expect("cache exists") {
        record.insert("status".to_string(), Cell::Text("ODD".to_string()));
    }
    assert_eq!(world.lookup(true, "WORD", 11), Err(DefinitionError::MalformedCache));
}

#[test]
fn google_identity_creates_and_resolves_one_stable_account() {
    let mut world = World::new();
    let identity = google(
        "google-subject",
        "Ada Lovelace",
        Some("https://lh3.googleusercontent.com/avatar"),
    );
    let created = world.resolve(&identity).expect("account is created");
    assert!(created.created);
    let resolved = world.resolve(&identity).expect("account resolves");
    assert!(!resolved.created);
    assert_eq!(resolved.user_id, created.user_id);
    assert_eq!(
        world.load_profile(&created.user_id).expect("profile exists").display_name,
        "Ada Lovelace"
    );
    assert!(world.rows_where("password_credentials", "user_id", &created.user_id).is_empty());
}

#[test]
fn concurrent_first_login_resolves_one_winner_without_orphans() {
    let mut world = World::new();
    let identity = google("simultaneous-subject", "Simultaneous User", None);
    // The second login runs up to its transaction before the first one commits.
    let mut replies: Vec<Reply> = Vec::new();
    loop {
        let reply = {
            let mut script = Script::new(&replies);
            match resolve_or_create_external_account(&mut script, &identity, EPOCH) {
                Err(Stop::Wait(Request::Store(statement))) if statement.verb == Verb::Begin => None,
                Err(Stop::Wait(request)) => Some(world.answer(&request)),
                _ => panic!("the login waits"),
            }
        };
        match reply {
            Some(reply) => replies.push(reply),
            None => break,
        }
    }
    let first = world.resolve(&identity).expect("first login wins");
    let second = loop {
        let reply = {
            let mut script = Script::new(&replies);
            match resolve_or_create_external_account(&mut script, &identity, EPOCH) {
                Err(Stop::Wait(request)) => world.answer(&request),
                Ok(account) => break account,
                _ => panic!("the login ends"),
            }
        };
        replies.push(reply);
    };
    assert_eq!(first.user_id, second.user_id);
    assert_ne!(first.created, second.created);
    assert_eq!(world.rows("users").len(), 1);
    assert_eq!(world.rows("external_identities").len(), 1);
    assert_eq!(world.rows("user_profiles").len(), 1);
}

#[test]
fn first_login_identity_conflict_rolls_back_without_orphan_users() {
    let mut world = World::new();
    let identity = google("race-subject", "Concurrent User", None);
    let first = world.resolve(&identity).expect("first login");
    let second = world.resolve(&identity).expect("second login");
    assert_eq!(first.user_id, second.user_id);
    assert!(first.created);
    assert!(!second.created);
    assert_eq!(world.rows("users").len(), 1);
    assert_eq!(world.rows("external_identities").len(), 1);
    assert_eq!(world.rows("user_profiles").len(), 1);
}

#[test]
fn explicit_link_preserves_existing_user_and_rejects_conflicts() {
    let mut world = World::new();
    let user = world.register("ada", "correct horse battery staple").expect("Ada registers");
    let identity = google("subject", "Ada", None);
    world.link(&user, &identity).expect("identity links");
    assert_eq!(world.user_for(&identity.issuer, &identity.subject), Some(user.clone()));
    assert!(world.link(&user, &identity).is_err());
    assert_eq!(
        world.link(&user, &google("other-subject", "Ada", None)),
        Err(ExternalIdentityError::Conflict)
    );
    assert_eq!(
        world.resolve(&identity).expect("identity resolves"),
        ResolvedExternalAccount { user_id: user, created: false }
    );
}

#[test]
fn malformed_identities_are_refused() {
    assert_eq!(
        VerifiedExternalIdentity::google(
            "".to_string(),
            "subject".to_string(),
            "Ada".to_string(),
            None
        )
        .err(),
        Some(ExternalIdentityError::Invalid)
    );
    let mut world = World::new();
    let mut identity = google("subject", "Ada", None);
    identity.provider = "OTHER".to_string();
    assert_eq!(world.resolve(&identity), Err(ExternalIdentityError::Invalid));
    assert_eq!(world.link("user", &identity), Err(ExternalIdentityError::Invalid));
    assert_eq!(world.writes, 0);
}

#[test]
fn authenticated_member_commands_are_authoritative_and_atomic() {
    let mut world = World::new();
    let (alice, bob) = world.two_players();
    let mallory = world.register("mallory", "a third correct password").expect("Mallory registers");
    let challenge = world.create_challenge(&alice, &bob).expect("challenge creates");
    let game_id = world.accept_challenge(&challenge, &bob, 9).expect("game starts");
    let state = world.recover_game(game_id).expect("game loads");
    assert!(matches!(
        world.submit(
            game_id,
            &mallory,
            "forged",
            "forged-idem",
            state.revision,
            &GameCommand::Pass,
        ),
        Err(GameServiceError::Unauthorized)
    ));
    let updated = world
        .submit(game_id, &alice, "pass-1", "pass-idem-1", state.revision, &GameCommand::Pass)
        .expect("active member passes");
    assert_eq!(updated.revision, state.revision + 1);
    let before = world.tables.clone();
    assert!(matches!(
        world.submit(game_id, &bob, "stale", "stale-idem", state.revision, &GameCommand::Pass),
        Err(GameServiceError::Conflict { .. })
    ));
    assert_eq!(
        world.submit(
            game_id,
            &alice,
            "out-of-turn",
            "out-of-turn-idem",
            updated.revision,
            &GameCommand::Pass
        ),
        Err(GameServiceError::Domain("the command is illegal".to_string()))
    );
    assert_eq!(
        world.submit(game_id, &bob, "pass-1", "other-key", updated.revision, &GameCommand::Pass),
        Err(GameServiceError::Journal(JournalError::DuplicateCommand))
    );
    assert_eq!(world.tables, before);
    assert_eq!(world.recover_game(game_id).expect("only accepted command persists"), updated);
}

#[test]
fn google_login_uses_existing_application_sessions() {
    let mut world = World::new();
    let identity = google("new-google-user", "Grace Hopper", None);
    let (user, session): (String, String) = world
        .run(&(), |script, _| {
            google_login_and_create_session(script, &identity, EPOCH, days(30))
                .map(|(user, token)| (user, token.clone()))
        })
        .expect("login succeeds");
    assert_eq!(world.resolve_session(&session, EPOCH), Some(user));
}

#[test]
fn migration_identity_conflict_preserves_password_and_existing_sessions() {
    let mut world = World::new();
    world.real_hashes = true;
    let first = world.register("first-user", "correct horse battery staple").expect("first");
    let second = world.register("second-user", "correct horse battery staple").expect("second");
    let session = world.create_session(&second, EPOCH, days(30));
    let identity = google("shared-google-subject", "First User", None);
    world.migrate(&first, &identity, EPOCH).expect("first migrates");
    let conflict = world.migrate(&second, &identity, EPOCH);
    assert!(matches!(
        conflict,
        Err(GoogleAccountWorkflowError::Identity(ExternalIdentityError::Conflict))
    ));
    assert_eq!(
        world
            .authenticate("second-user", "correct horse battery staple")
            .expect("password still works"),
        second
    );
    assert_eq!(world.resolve_session(&session, EPOCH), Some(second));
}

#[test]
fn migration_preserves_games_history_scores_preferences_and_account_identity() {
    let mut world = World::new();
    world.real_hashes = true;
    let user = world.register("legacy-state", "correct horse battery staple").expect("user");
    let opponent = world.register("opponent", "another correct horse battery").expect("opponent");
    let challenge = world.create_challenge(&user, &opponent).expect("challenge creates");
    let game_id = world.accept_challenge(&challenge, &opponent, 19).expect("game starts");
    let mut preferred = world.load_rack_order(game_id, &user).expect("order loads");
    preferred.reverse();
    world.save_rack_order(game_id, &user, &preferred).expect("order saves");
    let summaries_before: Vec<GameSummary> = world
        .run(&(), |script, _| user_game_summaries(script, &user))
        .expect("summaries load");
    let history_before: Vec<GameHistoryEntry> =
        world.run(&(), |script, _| game_history(script, game_id)).expect("history loads");
    let totals_before =
        world.run(&(), |script, _| user_score_totals(script, &user)).expect("totals load");
    let old_session = world.create_session(&user, EPOCH, days(30));
    let identity = google("legacy-state-subject", "Legacy State", None);
    let later = after(EPOCH, minutes(1));
    let new_session = world.migrate(&user, &identity, later).expect("account migrates");

    assert!(world.resolve_session(&old_session, EPOCH).is_none());
    assert_eq!(world.resolve_session(&new_session, later), Some(user.clone()));
    assert!(world.authenticate("legacy-state", "correct horse battery staple").is_err());
    assert_eq!(
        world.user_for("https://accounts.google.com", "legacy-state-subject"),
        Some(user.clone())
    );
    let summaries_after: Vec<GameSummary> = world
        .run(&(), |script, _| user_game_summaries(script, &user))
        .expect("summaries load");
    assert_eq!(
        summaries_after.iter().map(|summary| summary.game_id.clone()).collect::<Vec<_>>(),
        summaries_before.iter().map(|summary| summary.game_id.clone()).collect::<Vec<_>>()
    );
    assert_eq!(
        summaries_after[0].canonical_revision,
        summaries_before[0].canonical_revision
    );
    let history_after: Vec<GameHistoryEntry> =
        world.run(&(), |script, _| game_history(script, game_id)).expect("history loads");
    assert_eq!(history_after, history_before);
    let totals_after =
        world.run(&(), |script, _| user_score_totals(script, &user)).expect("totals load");
    assert_eq!(totals_after, totals_before);
    assert_eq!(world.load_rack_order(game_id, &user).expect("order loads"), preferred);
}

#[test]
fn migration_without_password_rolls_back_identity_and_profile() {
    let mut world = World::new();
    let user = world.register("rollback-user", "correct horse battery staple").expect("user");
    world.tables.insert("password_credentials".to_string(), Vec::new());
    let identity = google("rollback-subject", "Rollback User", None);
    assert!(matches!(
        world.migrate(&user, &identity, EPOCH),
        Err(GoogleAccountWorkflowError::MissingPasswordCredential)
    ));
    assert_eq!(world.user_for("https://accounts.google.com", "rollback-subject"), None);
    assert!(world.load_profile(&user).is_none());
}

#[test]
fn migration_preserves_user_removes_password_and_revokes_old_sessions() {
    let mut world = World::new();
    world.real_hashes = true;
    let user = world.register("grace", "correct horse battery staple").expect("user");
    let old_session = world.create_session(&user, EPOCH, days(30));
    assert_eq!(
        world
            .run(&(), |script, _| prove_legacy_password_account(
                script,
                "grace",
                "correct horse battery staple"
            ))
            .expect("password is proven"),
        user
    );
    let identity = google("grace-google", "Grace Hopper", None);
    let new_session = world.migrate(&user, &identity, EPOCH).expect("account migrates");
    assert!(world.resolve_session(&old_session, EPOCH).is_none());
    assert_eq!(world.resolve_session(&new_session, EPOCH), Some(user));
    assert!(world.authenticate("grace", "correct horse battery staple").is_err());
}

#[test]
fn invitation_tokens_are_hashed_single_use_and_revocable() {
    let mut world = World::new();
    let (creator, redeemer) = world.two_players();
    let (invitation_id, token) = world.create_invitation(&creator, days(1));
    let stored = text_in(&world.rows("invitations")[0], "token_hash").expect("hash exists");
    assert_ne!(stored, token);
    assert_eq!(stored, token_hash(&token));
    assert_eq!(
        world.redeem(&token, &redeemer, EPOCH).expect("invitation redeems"),
        invitation_id
    );
    assert!(matches!(world.redeem(&token, &redeemer, EPOCH), Err(InvitationError::Invalid)));

    let (invitation_id, token) = world.create_invitation(&creator, days(1));
    world
        .run(&(), |script, _| revoke_invitation(script, &invitation_id, &creator))
        .expect("invitation revokes");
    assert!(matches!(world.redeem(&token, &redeemer, EPOCH), Err(InvitationError::Invalid)));
}

#[test]
fn invitation_redemption_starts_exactly_one_game() {
    let mut world = World::new();
    let (creator, redeemer) = world.two_players();
    let (_, token) = world.create_invitation(&creator, days(1));
    let game = world
        .run(&(), |script, _| {
            redeem_invitation_and_start_game(script, &token, &redeemer, EPOCH, 7)
        })
        .expect("invitation starts game");
    assert_eq!(world.rows_where("game_players", "game_id", &format_id(game)).len(), 2);
    let again = world.run(&(), |script, _| {
        redeem_invitation_and_start_game(script, &token, &redeemer, EPOCH, 7)
    });
    assert!(matches!(again, Err(InvitationError::Invalid)));
    assert_eq!(world.rows("games").len(), 1);
}

#[test]
fn invitation_expiry_and_self_redemption_are_rejected() {
    let mut world = World::new();
    let (creator, redeemer) = world.two_players();
    let (_, token) = world.create_invitation(&creator, Span::seconds(3_600));
    assert!(matches!(world.redeem(&token, &creator, EPOCH), Err(InvitationError::Invalid)));
    assert!(matches!(
        world.redeem(&token, &redeemer, after(EPOCH, Span::seconds(7_200))),
        Err(InvitationError::Invalid)
    ));
}

#[test]
fn one_command_can_append_multiple_events_with_one_idempotency_record() {
    let (mut world, game_id, state) = initialized_database();
    let started = started_event(&state);
    let passed = GameEvent::TurnPassed { player_id: state.players[0] };
    assert_eq!(
        world
            .append(
                game_id,
                "multi-event-command",
                "multi-event-idempotency",
                0,
                &vec![started, passed],
            )
            .expect("multi-event command appends atomically"),
        2
    );
    let events = world.load_events(game_id, 0).expect("both events load");
    assert_eq!(events.len(), 2);
    assert!(events.iter().all(|event| event.command_id == "multi-event-command"));
    assert_eq!(events.iter().map(|event| event.revision).collect::<Vec<_>>(), vec![1, 2]);
    assert!(matches!(
        world.append(game_id, "multi-event-command", "different-idempotency", 2, &vec![]),
        Err(JournalError::DuplicateCommand)
    ));
    assert!(matches!(
        world.append(game_id, "different-command", "multi-event-idempotency", 2, &vec![]),
        Err(JournalError::DuplicateCommand)
    ));
}

#[test]
fn stale_revision_and_rolled_back_appends_leave_no_partial_events() {
    let (mut world, game_id, state) = initialized_database();
    let started = started_event(&state);
    let before = world.tables.clone();
    assert!(matches!(
        world.append(game_id, "stale-command", "stale-idempotency", 1, &vec![started]),
        Err(JournalError::Conflict { expected: 1, actual: 0 })
    ));
    assert!(world.load_events(game_id, 0).expect("journal remains queryable").is_empty());
    let rows = world.rows_where("games", "game_id", &format_id(game_id));
    assert_eq!(rows[0].get("canonical_revision"), Some(&Cell::Integer(0)));
    assert_eq!(world.tables, before);
}

#[test]
fn an_append_whose_storing_fails_is_rolled_back() {
    let (mut world, game_id, state) = initialized_database();
    let started = started_event(&state);
    // A row of the second event's revision is in the way.
    world.insert(
        "game_journal",
        &[
            ("event_id", Cell::Text("in-the-way".to_string())),
            ("game_id", Cell::Text(format_id(game_id))),
            ("revision", Cell::Integer(2)),
        ],
    );
    let before = world.tables.clone();
    let events = vec![started, GameEvent::TurnPassed { player_id: state.players[0] }];
    let appended = world.attempt(&events, |script, events| {
        let listed: Vec<&GameEvent> = events.iter().collect();
        append_events_transactionally(script, game_id, "command", "key", 0, &listed)
    });
    assert_eq!(appended, Err(Ended::StoreFailed));
    assert_eq!(world.tables, before);
}

#[test]
fn games_that_fail_to_start_leave_nothing_behind() {
    let mut world = World::new();
    let (alice, bob) = world.two_players();
    let challenge = world.create_challenge(&alice, &bob).expect("challenge creates");
    let (_, token) = world.create_invitation(&alice, days(1));
    let policy = GameCreationPolicy::new(8, 32, 4).expect("policy");
    let (lobby, _) = world
        .create_lobby(&alice, &settings(4, 15, 1, FirstPlayerPolicy::Creator), policy)
        .expect("lobby creates");
    world.join_lobby_by_id(&lobby, &bob, policy).expect("Bob joins");
    let before = world.tables.clone();
    let reason = || ChallengeError::Serialization("no ink".to_string());

    world.unwritable = true;
    let writes = world.writes;
    assert_eq!(world.accept_challenge(&challenge, &bob, 4), Err(reason()));
    assert!(world.writes > writes);
    assert_eq!(world.tables, before);
    let writes = world.writes;
    assert_eq!(
        world.start_lobby(&lobby, &alice, policy, 17),
        Err(LobbyError::GameCreation(reason()))
    );
    assert!(world.writes > writes);
    assert_eq!(world.tables, before);
    let writes = world.writes;
    let redeemed = world.run(&(), |script, _| {
        redeem_invitation_and_start_game(script, &token, &bob, EPOCH, 7)
    });
    assert_eq!(redeemed, Err(InvitationError::GameCreation(reason())));
    assert!(world.writes > writes);
    assert_eq!(world.tables, before);

    world.unwritable = false;
    world.accept_challenge(&challenge, &bob, 4).expect("challenge accepts");
    world.start_lobby(&lobby, &alice, policy, 17).expect("lobby starts");
    world
        .run(&(), |script, _| redeem_invitation_and_start_game(script, &token, &bob, EPOCH, 7))
        .expect("invitation starts game");
    assert_eq!(world.rows("games").len(), 3);
}

#[test]
fn refused_changes_of_lobbies_leave_nothing_behind() {
    let mut world = World::new();
    let (alice, bob) = world.two_players();
    let policy = GameCreationPolicy::new(8, 32, 4).expect("policy");
    let (lobby, token) = world
        .create_lobby(&alice, &settings(2, 15, 1, FirstPlayerPolicy::Creator), policy)
        .expect("lobby creates");
    let carol = world.register("carol", "third correct horse battery").expect("Carol registers");
    world.join_lobby(&token, &bob, policy).expect("Bob joins");
    let before = world.tables.clone();
    assert_eq!(world.join_lobby(&token, &carol, policy), Err(LobbyError::Unavailable));
    assert_eq!(world.tables, before);
    assert_eq!(world.join_lobby_by_id(&lobby, &carol, policy), Err(LobbyError::Unavailable));
    assert_eq!(world.tables, before);
    assert!(world.run(&(), |script, _| leave_lobby(script, &lobby, &alice, EPOCH)).is_err());
    assert_eq!(world.tables, before);
    assert!(world.run(&(), |script, _| cancel_lobby(script, &lobby, &bob, EPOCH)).is_err());
    assert_eq!(world.tables, before);
    let oversized = settings(9, 15, 1, FirstPlayerPolicy::Creator);
    assert_eq!(world.create_lobby(&carol, &oversized, policy), Err(LobbyError::InvalidSettings));
    assert_eq!(world.tables, before);
}

#[test]
fn accounts_that_fail_to_change_stay_as_they_are() {
    let mut world = World::new();
    let user = world.register("ada", "correct horse battery staple").expect("user");
    world
        .run(&(), |script, _| create_google_profile(script, &user, "Ada", &None, EPOCH))
        .expect("profile creates");
    let picture = normalize_avatar(&png(4, 2));
    world
        .run(&(), |script, _| set_google_avatar(script, &user, &picture, EPOCH))
        .expect("avatar is stored");
    let before = world.tables.clone();
    let never = Timestamp { unix_nanos: i128::MAX };

    let writes = world.writes;
    assert_eq!(
        world.run(&(), |script, _| remove_custom_avatar(script, &user, never)),
        Err(ProfileError::Timestamp)
    );
    assert!(world.writes > writes);
    assert_eq!(world.tables, before);
    assert_eq!(
        world.run(&(), |script, _| set_custom_avatar(script, &user, &picture, never)),
        Err(ProfileError::Timestamp)
    );
    assert_eq!(world.tables, before);
    assert_eq!(
        world.run(&(), |script, _| register(script, "bob", "another correct horse", never)),
        Err(AccountError::InvalidTimestamp)
    );
    assert_eq!(world.tables, before);
    let stranger = google("stranger", "Stranger", None);
    assert_eq!(
        world.run(&(), |script, _| resolve_or_create_external_account(script, &stranger, never)),
        Err(ExternalIdentityError::Timestamp)
    );
    assert_eq!(world.tables, before);
}

#[test]
fn appending_to_an_unknown_game_fails() {
    let (mut world, _, _) = initialized_database();
    assert_eq!(
        world.append(fresh_id(), "command", "key", 0, &vec![]),
        Err(JournalError::GameNotFound)
    );
    assert_eq!(world.recover_game(fresh_id()), Err(JournalError::EmptyJournal));
}

#[test]
fn transactional_append_is_idempotent_and_recoverable() {
    let (mut world, game_id, state) = initialized_database();
    let started = started_event(&state);
    assert_eq!(
        world
            .append(game_id, "command-1", "idem-1", 0, &vec![started.clone()])
            .expect("event appends"),
        1
    );
    assert!(matches!(
        world.append(game_id, "command-1", "idem-1", 1, &vec![started]),
        Err(JournalError::DuplicateCommand)
    ));
    assert_eq!(world.recover_game(game_id).expect("game recovers"), state);
}

#[test]
fn persisted_rule_dictionary_event_and_snapshot_fixtures_remain_replayable() {
    let (mut world, game_id, state) = initialized_database();
    assert_eq!(state.metadata.rules, initial_rules().reference);
    assert_eq!(state.metadata.dictionary.id, "enable1-en");
    let started = started_event(&state);
    let decoded = GameEventV3::write(started.clone()).read();
    assert_eq!(replay(&[decoded]), state);
    world
        .append(game_id, "fixture-command", "fixture-idempotency", 0, &vec![started.clone()])
        .expect("fixture event persists");
    world.store_snapshot(game_id, &state).expect("fixture snapshot persists");
    assert_eq!(world.load_events(game_id, 0).expect("fixture events load")[0].event, started);
    assert_eq!(
        world.load_latest_snapshot(game_id).expect("fixture snapshot loads"),
        Some(state)
    );
}

#[test]
fn payload_versions_are_explicit_and_unknown_versions_fail_closed() {
    let (mut world, game_id, state) = initialized_database();
    let started = started_event(&state);
    world.append(game_id, "command-1", "idem-1", 0, &vec![started]).expect("event appends");
    world.store_snapshot(game_id, &state).expect("snapshot stores");
    let compatibility = persisted_payload_compatibility();
    assert_eq!(compatibility.event_version, 3);
    assert_eq!(compatibility.snapshot_version, 3);
    for record in world.tables.get_mut("game_journal").expect("journal exists") {
        record.insert("payload_version".to_string(), Cell::Integer(4));
    }
    assert!(matches!(
        world.load_events(game_id, 0),
        Err(JournalError::UnsupportedPayloadVersion(4))
    ));
    for record in world.tables.get_mut("game_snapshots").expect("snapshots exist") {
        record.insert("payload_version".to_string(), Cell::Integer(4));
    }
    assert!(matches!(
        world.load_latest_snapshot(game_id),
        Err(JournalError::UnsupportedPayloadVersion(4))
    ));
}

#[test]
fn malformed_journal_rows_fail() {
    let (mut world, game_id, state) = initialized_database();
    world
        .append(game_id, "command-1", "idem-1", 0, &vec![started_event(&state)])
        .expect("event appends");
    for record in world.tables.get_mut("game_journal").expect("journal exists") {
        record.insert("payload".to_string(), Cell::Text("not a payload".to_string()));
    }
    assert_eq!(
        world.load_events(game_id, 0),
        Err(JournalError::Serialization("it is unknown".to_string()))
    );
    for record in world.tables.get_mut("game_journal").expect("journal exists") {
        record.insert("payload".to_string(), Cell::Null);
    }
    assert_eq!(world.load_events(game_id, 0), Err(JournalError::MalformedRow));
}

#[test]
fn version_one_payloads_remain_readable_after_version_two_writers() {
    let (mut world, game_id, state) = initialized_database();
    let started = started_event(&state);
    world.events.push(started.clone());
    world.insert(
        "game_journal",
        &[
            ("event_id", Cell::Text(format!("{}:1", format_id(game_id)))),
            ("game_id", Cell::Text(format_id(game_id))),
            ("revision", Cell::Integer(1)),
            ("command_id", Cell::Text("legacy-command".to_string())),
            ("idempotency_key", Cell::Text("legacy-idempotency".to_string())),
            ("payload_version", Cell::Integer(1)),
            ("payload", Cell::Text("event:0".to_string())),
        ],
    );
    let loaded = world.load_events(game_id, 0).expect("legacy event loads");
    assert_eq!(loaded[0].payload_version, 1);
    assert_eq!(loaded[0].event, started);
}

#[test]
fn tile_play_event_and_non_empty_snapshot_persist_as_version_three() {
    let (mut world, game_id, state) = initialized_database();
    let started = started_event(&state);
    world
        .append(game_id, "start-command", "start-idempotency", 0, &vec![started])
        .expect("start persists");
    let tile = state.racks[&state.players[0]][0];
    let coordinate = Coordinate::new(7, 7);
    let board_tile = BoardTile {
        tile,
        letter: match tile.face {
            TileFace::Letter(letter) => letter,
            TileFace::Blank => 'A',
        },
    };
    let played = GameEvent::TilesPlayed {
        player_id: state.players[0],
        placements: BTreeMap::from([(coordinate.key(), board_tile)]),
        score: u32::from(tile.points),
        drawn: vec![],
    };
    world
        .append(game_id, "play-command", "play-idempotency", 1, &vec![played.clone()])
        .expect("tile play persists");
    let played_state = apply_event(Some(state), &played).expect("tile play applies");
    world.store_snapshot(game_id, &played_state).expect("non-empty board snapshot persists");
    let loaded = world.load_events(game_id, 1).expect("tile play reloads");
    assert_eq!(loaded[0].payload_version, 3);
    assert_eq!(loaded[0].event, played);
    assert_eq!(
        world.load_latest_snapshot(game_id).expect("snapshot reloads"),
        Some(played_state.clone())
    );
    assert_eq!(world.recover_game(game_id).expect("game recovers"), played_state);
}

#[test]
fn snapshot_plus_tail_recovery_matches_full_replay() {
    let (mut world, game_id, state) = initialized_database();
    let started = started_event(&state);
    world
        .append(game_id, "command-1", "idem-1", 0, &vec![started.clone()])
        .expect("start appends");
    world.store_snapshot(game_id, &state).expect("snapshot stores");
    let passed = GameEvent::TurnPassed { player_id: state.players[0] };
    world
        .append(game_id, "command-2", "idem-2", 1, &vec![passed.clone()])
        .expect("tail appends");
    let expected = apply_event(Some(state), &passed).expect("event applies");
    assert_eq!(world.recover_game(game_id).expect("game recovers"), expected);
    world.tables.insert("game_snapshots".to_string(), Vec::new());
    assert_eq!(world.recover_game(game_id).expect("game replays"), expected);
    assert_eq!(replay(&[started, passed]), expected);
}

#[test]
fn journal_load_and_snapshot_round_trip_on_turso() {
    let (mut world, game_id, state) = initialized_database();
    assert!(world.load_events(game_id, 0).expect("events load").is_empty());
    world.store_snapshot(game_id, &state).expect("snapshot stores");
    world.store_snapshot(game_id, &state).expect("snapshot is replaced");
    assert_eq!(world.rows("game_snapshots").len(), 1);
    assert_eq!(world.load_latest_snapshot(game_id).expect("snapshot loads"), Some(state));
}

#[test]
fn the_latest_snapshot_is_loaded() {
    let (mut world, game_id, state) = initialized_database();
    world.store_snapshot(game_id, &state).expect("snapshot stores");
    let passed = GameEvent::TurnPassed { player_id: state.players[0] };
    let later = apply_event(Some(state.clone()), &passed).expect("event applies");
    assert!(later.revision > state.revision);
    world.store_snapshot(game_id, &later).expect("later snapshot stores");
    world.store_snapshot(game_id, &state).expect("earlier snapshot is replaced");
    assert_eq!(world.rows("game_snapshots").len(), 2);
    assert_eq!(world.load_latest_snapshot(game_id).expect("snapshot loads"), Some(later));
}

#[test]
fn created_games_are_recovered_with_their_seats() {
    let mut world = World::new();
    let (alice, bob) = world.two_players();
    let challenge = world.create_challenge(&alice, &bob).expect("challenge creates");
    let game = world.accept_challenge(&challenge, &bob, 4).expect("challenge accepts");
    let state = world.recover_game(game).expect("game recovers");
    assert_eq!(state.revision, 1);
    assert_eq!(state.players.len(), 2);
    assert!(state.players.contains(&state.active_player));
    for user in [&alice, &bob] {
        let player = world
            .run(&(), |script, _| player_for_user(script, game, user))
            .expect("player is found");
        assert!(state.players.contains(&player));
    }
    let stranger = world.register("mallory", "third correct horse battery").expect("stranger");
    assert_eq!(
        world.run(&(), |script, _| player_for_user(script, game, &stranger)),
        Err(GameServiceError::Unauthorized)
    );
}

#[test]
fn games_are_recovered_alike_with_and_without_snapshots() {
    let (mut world, game_id, state) = initialized_database();
    world
        .append(game_id, "start", "start", 0, &vec![started_event(&state)])
        .expect("start appends");
    let passed = GameEvent::TurnPassed { player_id: state.players[0] };
    world.append(game_id, "pass", "pass", 1, &vec![passed.clone()]).expect("pass appends");
    let whole = world.recover_game(game_id).expect("game recovers");
    assert_eq!(whole, replay(&[started_event(&state), passed]));
    world.store_snapshot(game_id, &state).expect("snapshot stores");
    assert_eq!(world.recover_game(game_id), Ok(whole.clone()));
    world.store_snapshot(game_id, &whole).expect("snapshot stores");
    assert_eq!(world.recover_game(game_id), Ok(whole));
}

#[test]
fn the_account_of_a_first_login_is_found_by_the_next() {
    let mut world = World::new();
    let identity = google("subject", "Ada Lovelace", None);
    let first = world.resolve(&identity).expect("first login");
    assert!(first.created);
    let users = world.rows("users");
    assert_eq!((users.len(), world.rows("user_profiles").len()), (1, 1));
    assert_eq!(world.rows("external_identities").len(), 1);
    let next = world.resolve(&identity).expect("next login");
    assert!(!next.created);
    assert_eq!(next.user_id, first.user_id);
    assert_eq!(world.rows("users"), users);
    assert_eq!(world.rows("user_profiles").len(), 1);
    assert_eq!(world.rows("external_identities").len(), 1);
    assert!(world.rows("password_credentials").is_empty());
}

#[test]
fn sessions_stand_for_their_user_until_they_end() {
    let mut world = World::new();
    let token = world.create_session("ada", EPOCH, minutes(5));
    let hash = token_hash(&token);
    let statement = Statement::select("auth_sessions").where_text("session_hash", &hash);
    let Reply::Rows(rows) = world.execute(&statement) else {
        panic!("the store answers");
    };
    assert_eq!(session_user(&rows, 299_999), Some("ada".to_string()));
    assert_eq!(session_user(&rows, 300_000), None);
    assert_eq!(session_user(&Vec::new(), 0), None);
    assert_eq!(session_times(EPOCH, minutes(5)), Some((0, 300_000)));
    assert_eq!(session_failure(&Vec::new()), "missing_session");
    let cookies = vec![(SESSION_COOKIE_NAME.to_string(), "stale".to_string())];
    assert_eq!(session_failure(&cookies), "invalid_session");
}

#[test]
fn every_player_can_have_a_name() {
    let names = PlayerNames {
        named: vec![(1, "Ada".to_string()), (2, "Bea".to_string()), (1, "Cleo".to_string())],
        otherwise: "Somebody".to_string(),
    };
    assert_eq!(names.name(1), "Ada");
    assert_eq!(names.name(2), "Bea");
    assert_eq!(names.name(3), "Somebody");
}

fn settings(max_players: usize, board_size: u8, sets: u8, first: FirstPlayerPolicy) -> LobbySettings {
    LobbySettings { max_players, board_size, tile_set_count: sets, first_player: first }
}

#[test]
fn durable_lobby_identity_joins_only_while_open() {
    let mut world = World::new();
    let creator = world
        .register("durable-creator", "correct horse battery staple")
        .expect("creator");
    let joiner = world
        .register("durable-joiner", "another correct horse battery")
        .expect("joiner");
    let late = world.register("durable-late", "third correct horse battery").expect("late");
    let policy = GameCreationPolicy::new(8, 32, 4).expect("policy");
    let (lobby_id, _) = world
        .create_lobby(&creator, &settings(4, 15, 1, FirstPlayerPolicy::Creator), policy)
        .expect("lobby creates");
    assert_eq!(
        world
            .join_lobby_by_id(&lobby_id, &joiner, policy)
            .expect("durable identity joins"),
        lobby_id
    );
    world.start_lobby(&lobby_id, &creator, policy, 17).expect("starts");
    assert!(matches!(
        world.join_lobby_by_id(&lobby_id, &late, policy),
        Err(LobbyError::Unavailable)
    ));
}

#[test]
fn lobby_secrets_are_redacted_and_never_persisted_or_returned_in_authorized_views() {
    let mut world = World::new();
    let alice = world.register("alice", "correct horse battery staple").expect("alice");
    let policy = GameCreationPolicy::new(8, 32, 4).expect("policy");
    let wanted = settings(4, 15, 1, FirstPlayerPolicy::Creator);
    let (lobby_id, token, shown): (String, String, String) = world
        .run(&(), |script, _| {
            create_lobby(script, &alice, &wanted, policy, EPOCH, days(1)).map(|(id, token)| {
                (id, token.expose().to_string(), token.redacted().to_string())
            })
        })
        .expect("lobby creates");
    assert!(!shown.contains(&token));
    let stored = text_in(
        &world.rows_where("game_lobbies", "lobby_id", &lobby_id)[0],
        "invitation_token_hash",
    )
    .expect("hash stored");
    assert_ne!(stored, token);
    let authorized = world.load_lobby(&lobby_id, &alice).expect("authorized view loads");
    assert!(!format!("{authorized:?}").contains(&token));
    assert!(!LobbyError::Unavailable.message().contains(&token));
}

#[test]
fn three_members_join_and_creator_starts_exactly_once() {
    let mut world = World::new();
    let alice = world.register("alice", "correct horse battery staple").expect("alice");
    let bob = world.register("bob", "another correct horse battery").expect("bob");
    let carol = world.register("carol", "third correct horse battery").expect("carol");
    let policy = GameCreationPolicy::new(16, 64, 16).expect("policy");
    let (lobby_id, token) = world
        .create_lobby(&alice, &settings(8, 21, 2, FirstPlayerPolicy::Creator), policy)
        .expect("create");
    assert_eq!(world.join_lobby(&token, &bob, policy).expect("bob joins"), lobby_id);
    world.join_lobby(&token, &carol, policy).expect("carol joins");
    assert_eq!(world.join_lobby(&token, &carol, policy), Err(LobbyError::Unavailable));
    let game_id = world.start_lobby(&lobby_id, &alice, policy, 7).expect("starts");
    let state = world.recover_game(game_id).expect("recovers");
    assert_eq!(state.players.len(), 3);
    assert_eq!(state.active_player, state.players[0]);
    assert_eq!(state.rules.board_size, 21);
    assert_eq!(tile_count(&state.rules), 200);
    let writes = world.writes;
    assert_eq!(world.start_lobby(&lobby_id, &alice, policy, 9).expect("idempotent"), game_id);
    assert_eq!(world.writes, writes);
    assert_eq!(
        world.start_lobby(&lobby_id, &bob, policy, 9),
        Err(LobbyError::Unauthorized)
    );
}

#[test]
fn multiplayer_lobby_product_matrix_covers_policies_capacity_leave_cancel_and_large_membership() {
    let mut world = World::new();
    let mut users = Vec::new();
    for index in 0..8 {
        users.push(
            world
                .register(
                    &format!("player-{index}"),
                    &format!("correct horse battery password {index}"),
                )
                .expect("member registers"),
        );
    }
    let policy = GameCreationPolicy::new(8, 32, 4).expect("policy");
    for (policy_index, first_player) in [
        FirstPlayerPolicy::Creator,
        FirstPlayerPolicy::Random,
        FirstPlayerPolicy::Chosen(users[2].clone()),
    ]
    .into_iter()
    .enumerate()
    {
        let chosen_at_creation = matches!(first_player, FirstPlayerPolicy::Chosen(_));
        let initial_policy = if chosen_at_creation {
            FirstPlayerPolicy::Creator
        } else {
            first_player.clone()
        };
        let (lobby_id, token) = world
            .create_lobby(&users[0], &settings(8, 21, 2, initial_policy), policy)
            .expect("lobby creates");
        for user in &users[1..] {
            world.join_lobby(&token, user, policy).expect("large membership joins");
        }
        if chosen_at_creation {
            let changed = settings(8, 21, 2, first_player.clone());
            world
                .run(&(), |script, _| {
                    update_lobby_settings(script, &lobby_id, &users[0], &changed, policy, EPOCH)
                })
                .expect("chosen member configured");
        }
        let game_id = world
            .start_lobby(
                &lobby_id,
                &users[0],
                policy,
                u64::try_from(policy_index).expect("index fits") + 17,
            )
            .expect("manual start succeeds");
        let state = world.recover_game(game_id).expect("game recovers");
        assert_eq!(state.players.len(), 8);
        match first_player {
            FirstPlayerPolicy::Creator => assert_eq!(state.active_player, state.players[0]),
            FirstPlayerPolicy::Chosen(_) => {
                assert_eq!(state.active_player, state.players[2]);
            }
            FirstPlayerPolicy::Random => {
                assert!(state.players.contains(&state.active_player));
            }
        }
    }

    let (leave_id, leave_token) = world
        .create_lobby(&users[0], &settings(3, 15, 1, FirstPlayerPolicy::Creator), policy)
        .expect("leave lobby creates");
    world.join_lobby(&leave_token, &users[1], policy).expect("member joins");
    world.join_lobby(&leave_token, &users[2], policy).expect("capacity fills");
    assert!(matches!(
        world.join_lobby(&leave_token, &users[3], policy),
        Err(LobbyError::Unavailable)
    ));
    world
        .run(&(), |script, _| leave_lobby(script, &leave_id, &users[2], EPOCH))
        .expect("member leaves");
    world
        .join_lobby(&leave_token, &users[3], policy)
        .expect("released seat can be joined");

    let (cancel_id, cancel_token) = world
        .create_lobby(&users[0], &settings(4, 15, 1, FirstPlayerPolicy::Creator), policy)
        .expect("cancel lobby creates");
    world
        .run(&(), |script, _| cancel_lobby(script, &cancel_id, &users[0], EPOCH))
        .expect("creator cancels");
    assert!(matches!(
        world.join_lobby(&cancel_token, &users[1], policy),
        Err(LobbyError::Unavailable)
    ));
}

#[test]
fn leaving_members_close_the_gap_in_the_seats() {
    let mut world = World::new();
    let mut users = Vec::new();
    for index in 0..4 {
        users.push(
            world
                .register(&format!("member-{index}"), "correct horse battery staple")
                .expect("member registers"),
        );
    }
    let policy = GameCreationPolicy::new(8, 32, 4).expect("policy");
    let (lobby_id, token) = world
        .create_lobby(&users[0], &settings(4, 15, 1, FirstPlayerPolicy::Creator), policy)
        .expect("lobby creates");
    for user in &users[1..] {
        world.join_lobby(&token, user, policy).expect("member joins");
    }
    world
        .run(&(), |script, _| leave_lobby(script, &lobby_id, &users[1], EPOCH))
        .expect("member leaves");
    let lobby = world.load_lobby(&lobby_id, &users[0]).expect("lobby loads");
    assert_eq!(
        lobby.members.iter().map(|member| (member.user_id.clone(), member.seat)).collect::<Vec<_>>(),
        vec![(users[0].clone(), 0), (users[2].clone(), 1), (users[3].clone(), 2)]
    );
    assert_eq!(
        world.run(&(), |script, _| leave_lobby(script, &lobby_id, &users[0], EPOCH)),
        Err(LobbyError::Unauthorized)
    );
    assert_eq!(
        world.run(&(), |script, _| leave_lobby(script, &lobby_id, &users[1], EPOCH)),
        Err(LobbyError::Unavailable)
    );
    assert_eq!(world.load_lobby(&lobby_id, &users[1]), Err(LobbyError::Unavailable));
}

#[test]
fn expired_lobbies_and_single_members_do_not_start() {
    let mut world = World::new();
    let (alice, bob) = world.two_players();
    let policy = GameCreationPolicy::new(8, 32, 4).expect("policy");
    let (lobby_id, token) = world
        .create_lobby(&alice, &settings(4, 15, 1, FirstPlayerPolicy::Creator), policy)
        .expect("lobby creates");
    assert_eq!(
        world.start_lobby(&lobby_id, &alice, policy, 1),
        Err(LobbyError::NotReady)
    );
    let late = after(EPOCH, days(2));
    assert_eq!(
        world.run(&(), |script, _| join_lobby(script, &token, &bob, policy, late)),
        Err(LobbyError::Unavailable)
    );
    assert_eq!(world.rows("games").len(), 0);
}

#[test]
fn policy_rejects_excessive_settings_and_lobby_capacity() {
    let mut world = World::new();
    let alice = world.register("alice", "correct horse battery staple").expect("alice");
    let policy = GameCreationPolicy::new(4, 20, 2).expect("policy");
    assert!(matches!(
        world.create_lobby(&alice, &settings(5, 15, 1, FirstPlayerPolicy::Random), policy),
        Err(LobbyError::InvalidSettings)
    ));
    assert_eq!(GameCreationPolicy::new(1, 20, 2).err(), Some(LobbyError::InvalidPolicy));
}

#[test]
fn attempts_are_browser_bound_expiring_and_exactly_once() {
    let mut world = World::new();
    let attempt = world
        .run(&(), |script, _| {
            create_oidc_attempt(
                script,
                OidcAttemptPurpose::Login,
                &None,
                &Some("invitation-id".to_string()),
                EPOCH,
                minutes(10),
            )
        })
        .expect("attempt creates");
    let stored = world.rows("auth_login_attempts");
    assert_ne!(text_in(&stored[0], "state_hash"), Some(attempt.state.clone()));
    assert!(world
        .run(&(), |script, _| claim_oidc_attempt(script, &attempt.state, "wrong-binding", EPOCH))
        .is_err());
    let claimed = world
        .run(&(), |script, _| {
            claim_oidc_attempt(script, &attempt.state, &attempt.browser_binding, EPOCH)
        })
        .expect("attempt claims");
    assert_eq!(claimed.nonce, attempt.nonce);
    assert_eq!(claimed.continuation_invitation_id.as_deref(), Some("invitation-id"));
    assert!(world
        .run(&(), |script, _| {
            claim_oidc_attempt(script, &attempt.state, &attempt.browser_binding, EPOCH)
        })
        .is_err());
    world
        .run(&(), |script, _| consume_oidc_attempt(script, &claimed.attempt_id, EPOCH))
        .expect("claim consumes");
    assert_eq!(
        world.run(&(), |script, _| consume_oidc_attempt(script, &claimed.attempt_id, EPOCH)),
        Err(OidcAttemptError::Invalid)
    );
    world
        .run(&(), |script, _| cleanup_oidc_attempts(script, EPOCH))
        .expect("terminal attempt cleans");
    assert!(world.rows("auth_login_attempts").is_empty());
}

#[test]
fn expired_and_invalid_purpose_attempts_fail_closed() {
    let mut world = World::new();
    assert!(world
        .run(&(), |script, _| {
            create_oidc_attempt(
                script,
                OidcAttemptPurpose::MigratePassword,
                &None,
                &None,
                EPOCH,
                minutes(10),
            )
        })
        .is_err());
    let attempt = world
        .run(&(), |script, _| {
            create_oidc_attempt(
                script,
                OidcAttemptPurpose::MigratePassword,
                &Some("existing-user".to_string()),
                &None,
                EPOCH,
                minutes(1),
            )
        })
        .expect("migration attempt creates");
    let late = after(EPOCH, minutes(2));
    assert!(world
        .run(&(), |script, _| {
            claim_oidc_attempt(script, &attempt.state, &attempt.browser_binding, late)
        })
        .is_err());
    world
        .run(&(), |script, _| cleanup_oidc_attempts(script, late))
        .expect("expired attempt cleans");
    assert!(world.rows("auth_login_attempts").is_empty());
}

#[test]
fn player_play_coordinates_attribute_only_that_players_tiles() {
    let viewer = fresh_id();
    let opponent = fresh_id();
    let viewer_coordinate = Coordinate::new(7, 7);
    let opponent_coordinate = Coordinate::new(8, 7);
    let board_tile = |id, letter| BoardTile {
        tile: Tile { id, face: TileFace::Letter(letter), points: 1 },
        letter,
    };
    let events = [
        GameEvent::TilesPlayed {
            player_id: viewer,
            placements: BTreeMap::from([(viewer_coordinate.key(), board_tile(1, 'A'))]),
            score: 1,
            drawn: Vec::new(),
        },
        GameEvent::TilesPlayed {
            player_id: opponent,
            placements: BTreeMap::from([(opponent_coordinate.key(), board_tile(2, 'B'))]),
            score: 1,
            drawn: Vec::new(),
        },
    ];
    let listed: Vec<&GameEvent> = events.iter().collect();
    assert_eq!(
        player_play_coordinates(&listed, viewer),
        BTreeSet::from([viewer_coordinate.key()])
    );
}

#[test]
fn routes_load_only_authenticated_member_presentations() {
    let mut world = World::new();
    let (alice, bob) = world.two_players();
    let mallory = world.register("mallory", "a third correct password").expect("Mallory registers");
    let challenge = world.create_challenge(&alice, &bob).expect("challenge creates");
    let game_id = world.accept_challenge(&challenge, &bob, 7).expect("game starts");
    let alice_session = world.create_session(&alice, EPOCH, days(1));
    let mallory_session = world.create_session(&mallory, EPOCH, days(1));
    let alice_cookies = vec![(SESSION_COOKIE_NAME.to_string(), alice_session)];
    let mallory_cookies = vec![(SESSION_COOKIE_NAME.to_string(), mallory_session)];
    let no_cookies: Vec<(String, String)> = Vec::new();

    let dashboard = world
        .run(&(), |script, _| load_authenticated_dashboard(script, &alice_cookies, EPOCH))
        .expect("Alice dashboard loads");
    assert_eq!(dashboard.user_id, alice);
    assert_eq!(dashboard.projection.games.len(), 1);

    let game = format_id(game_id);
    let (page_game, rack, history) = world
        .run(&(), |script, _| {
            load_authorized_game_page(script, &alice_cookies, &game, EPOCH)
                .map(|page| (page.game_id, page.view.rack.len(), page.history.len()))
        })
        .expect("Alice game loads");
    assert_eq!(page_game, game_id);
    assert_eq!(rack, 7);
    assert_eq!(history, 1);

    let refused = world.run(&(), |script, _| {
        load_authorized_game_page(script, &mallory_cookies, &game, EPOCH).map(|_| ())
    });
    assert!(matches!(refused, Err(PresentationError::Forbidden)));
    assert!(matches!(
        world.run(&(), |script, _| load_authenticated_dashboard(script, &no_cookies, EPOCH)),
        Err(PresentationError::Unauthenticated)
    ));
    let late = after(EPOCH, days(2));
    assert!(matches!(
        world.run(&(), |script, _| {
            authenticated_user(script, &alice_cookies, late).map(|user| user.clone())
        }),
        Err(PresentationError::Unauthenticated)
    ));
}

#[test]
fn generated_handles_are_stable_format_and_unique() {
    let mut world = World::new();
    let first = world
        .run(&(), |script, _| generate_unique_handle(script, "Ada Lovelace"))
        .expect("handle comes");
    assert!(first.starts_with("ada-lovelace-"));
    assert!(first.len() <= 32);
    let unicode = world
        .run(&(), |script, _| generate_unique_handle(script, "\u{674e}\u{96f7}"))
        .expect("handle comes");
    assert!(unicode.starts_with("player-"));
}

#[test]
fn avatar_visibility_is_limited_to_product_relationships() {
    let mut world = World::new();
    let alice = world
        .register("alice-profile", "correct horse battery staple")
        .expect("Alice registers");
    let bob = world.register("bob-profile", "correct horse battery staple").expect("Bob registers");
    let stranger = world
        .register("stranger-profile", "correct horse battery staple")
        .expect("stranger registers");
    let sees = |viewer: &str, profile: &str, world: &mut World| {
        world
            .run(&(), |script, _| can_view_profile_avatar(script, viewer, profile))
            .expect("visibility loads")
    };
    assert!(sees(&alice, &alice, &mut world));
    assert!(!sees(&alice, &bob, &mut world));
    let challenge = world.create_challenge(&alice, &bob).expect("challenge creates");
    assert!(sees(&alice, &bob, &mut world));
    assert!(sees(&bob, &alice, &mut world));
    assert!(!sees(&stranger, &alice, &mut world));
    world.accept_challenge(&challenge, &bob, 1).expect("game starts");
    assert!(sees(&alice, &bob, &mut world));
    assert!(sees(&bob, &alice, &mut world));
    assert!(!sees(&stranger, &alice, &mut world));
}

#[test]
fn former_opponents_do_not_see_each_other() {
    let mut world = World::new();
    let (alice, bob) = world.two_players();
    let challenge = world.create_challenge(&alice, &bob).expect("challenge creates");
    world.accept_challenge(&challenge, &bob, 1).expect("game starts");
    let sees = |world: &mut World| {
        world
            .run(&(), |script, _| can_view_profile_avatar(script, &alice, &bob))
            .expect("visibility loads")
    };
    assert!(sees(&mut world));
    for summary in world.tables.get_mut("game_summaries").expect("game is summarized") {
        summary.insert("status".to_string(), Cell::Text("COMPLETED".to_string()));
    }
    assert!(!sees(&mut world));
}

#[test]
fn avatars_are_bounded_normalized_and_round_trip_from_storage() {
    let input = png(4, 2);
    let normalized = normalize_avatar(&input).expect("picture normalizes");
    assert_eq!((normalized.width, normalized.height), (128, 128));
    assert_eq!(normalized.content_type, "image/png");
    assert!(normalize_avatar(&[]).is_err());
    assert!(normalize_avatar(&vec![0; MAX_AVATAR_INPUT_BYTES + 1]).is_err());

    let mut world = World::new();
    let user = world.register("avatar-user", "correct horse battery staple").expect("user");
    world
        .run(&(), |script, _| {
            create_google_profile(script, &user, "Avatar User", &None, EPOCH)
        })
        .expect("profile creates");
    let stored: Result<ProfileImage, ProfileError> = normalize_avatar(&input);
    let stored = world
        .run(&(), |script, _| set_custom_avatar(script, &user, &stored, EPOCH))
        .expect("avatar stores");
    assert_eq!(stored, normalized);
    let loaded = world
        .run(&(), |script, _| load_profile_image(script, &user, &stored.content_sha256))
        .expect("image loads")
        .expect("image exists");
    assert_eq!(loaded, stored);
    assert_eq!(
        world.load_profile(&user).expect("profile exists").avatar_source,
        AvatarSource::Custom
    );
    assert!(world
        .run(&(), |script, _| load_profile_image(script, &user, "another digest"))
        .expect("image loads")
        .is_none());
    assert_eq!(
        world.run(&(), |script, _| {
            set_custom_avatar(script, &user, &Err(ProfileError::InvalidImage), EPOCH)
        }),
        Err(ProfileError::InvalidImage)
    );
}

#[test]
fn google_sync_stops_after_customization() {
    let mut world = World::new();
    let user = world.register("ada", "correct horse battery staple").expect("user");
    let photo = Some("https://lh3.googleusercontent.com/photo".to_string());
    world
        .run(&(), |script, _| create_google_profile(script, &user, "Ada Google", &photo, EPOCH))
        .expect("profile creates");
    let new_photo = Some("https://lh3.googleusercontent.com/new".to_string());
    world
        .run(&(), |script, _| {
            synchronize_google_profile(script, &user, "Ada Changed", &new_photo, EPOCH)
        })
        .expect("profile synchronizes");
    assert_eq!(world.load_profile(&user).expect("profile").display_name, "Ada Changed");
    world
        .run(&(), |script, _| set_custom_display_name(script, &user, "Countess Ada", EPOCH))
        .expect("name changes");
    world
        .run(&(), |script, _| {
            synchronize_google_profile(script, &user, "Overwritten", &None, EPOCH)
        })
        .expect("profile synchronizes");
    assert_eq!(world.load_profile(&user).expect("profile").display_name, "Countess Ada");
    world
        .run(&(), |script, _| remove_custom_avatar(script, &user, EPOCH))
        .expect("avatar goes");
    assert_eq!(
        world.load_profile(&user).expect("profile").avatar_source,
        AvatarSource::CustomNone
    );
}

#[test]
fn removed_avatars_are_not_brought_back() {
    let mut world = World::new();
    let user = world.register("ada", "correct horse battery staple").expect("user");
    world
        .run(&(), |script, _| create_google_profile(script, &user, "Ada", &None, EPOCH))
        .expect("profile creates");
    let picture = normalize_avatar(&png(4, 2));
    assert_eq!(
        world.run(&(), |script, _| set_google_avatar(script, &user, &picture, EPOCH)),
        picture.clone().map(Some)
    );
    assert_eq!(world.rows("user_profile_images").len(), 1);
    world
        .run(&(), |script, _| remove_custom_avatar(script, &user, EPOCH))
        .expect("avatar goes");
    assert!(world.rows("user_profile_images").is_empty());
    assert_eq!(
        world.run(&(), |script, _| set_google_avatar(script, &user, &picture, EPOCH)),
        Ok(None)
    );
    assert!(world.rows("user_profile_images").is_empty());
}

#[test]
fn pictures_are_stored_in_base64() {
    let mut world = World::new();
    let user = world.register("ada", "correct horse battery staple").expect("user");
    let picture = Ok(profile_image(b"Man, Ma".to_vec()));
    world
        .run(&(), |script, _| set_custom_avatar(script, &user, &picture, EPOCH))
        .expect("avatar stores");
    let stored = &world.rows("user_profile_images")[0];
    assert_eq!(text_in(stored, "content_base64"), Some("TWFuLCBNYQ==".to_string()));
}

#[test]
fn provider_values_can_be_restored() {
    let mut world = World::new();
    let user = world.register("ada", "correct horse battery staple").expect("user");
    world
        .run(&(), |script, _| create_google_profile(script, &user, "Ada", &None, EPOCH))
        .expect("profile creates");
    world
        .run(&(), |script, _| set_custom_display_name(script, &user, "Countess", EPOCH))
        .expect("name changes");
    assert_eq!(
        world.load_profile(&user).expect("profile").display_name_source,
        ProfileFieldSource::Custom
    );
    world
        .run(&(), |script, _| use_google_display_name(script, &user, EPOCH))
        .expect("name is the provider's again");
    world.run(&(), |script, _| use_google_avatar(script, &user, EPOCH)).expect("avatar too");
    let profile = world.load_profile(&user).expect("profile");
    assert_eq!(profile.display_name_source, ProfileFieldSource::Google);
    assert_eq!(profile.avatar_source, AvatarSource::Google);
    world
        .run(&(), |script, _| synchronize_google_profile(script, &user, "Ada L", &None, EPOCH))
        .expect("profile synchronizes");
    assert_eq!(world.load_profile(&user).expect("profile").display_name, "Ada L");
}

#[test]
fn dashboard_combines_pending_items_with_ordered_games() {
    let mut world = World::new();
    let (alice, bob) = world.two_players();
    world.create_challenge(&bob, &alice).expect("challenge creates");
    world.create_invitation(&alice, days(1));
    let dashboard: DashboardProjection = world
        .run(&(), |script, _| dashboard_projection(script, &alice))
        .expect("dashboard loads");
    assert_eq!(dashboard.pending.len(), 2);
    assert!(dashboard
        .pending
        .iter()
        .any(|item| item.kind == "CHALLENGE" && item.direction == "INCOMING"));
    assert!(dashboard.pending.iter().any(|item| item.kind == "INVITATION"));
}

#[test]
fn games_are_listed_by_most_recent_activity() {
    let mut world = World::new();
    let text = |text: &str| Cell::Text(text.to_string());
    for (game, active, updated) in [("a", "user-1", 10), ("c", "user-2", 20), ("b", "user-2", 20)] {
        world.insert("game_players", &[("game_id", text(game)), ("user_id", text("user-1"))]);
        world.insert(
            "game_summaries",
            &[
                ("game_id", text(game)),
                ("status", text("ACTIVE")),
                ("active_player_user_id", text(active)),
                ("canonical_revision", Cell::Integer(1)),
                ("updated_at_ms", Cell::Integer(updated)),
            ],
        );
    }
    let games: Vec<GameSummary> = world
        .run(&(), |script, _| user_game_summaries(script, "user-1"))
        .expect("games load");
    let listed: Vec<&str> = games.iter().map(|game| game.game_id.as_str()).collect();
    assert_eq!(listed, vec!["b", "c", "a"]);
}

fn seat_players(world: &mut World, game_id: GameId, players: &[PlayerId]) {
    for (seat, player) in players.iter().enumerate() {
        world.insert(
            "game_players",
            &[
                ("game_player_id", Cell::Text(format_id(*player))),
                ("game_id", Cell::Text(format_id(game_id))),
                ("user_id", Cell::Text(format!("user-{seat}"))),
                ("seat", Cell::Integer(i64::try_from(seat).expect("seat fits"))),
            ],
        );
    }
}

#[test]
fn completed_game_score_totals_rebuild_idempotently() {
    let mut world = World::new();
    let game_id = fresh_id();
    let players = [fresh_id(), fresh_id()];
    let started = initialize(metadata(game_id), &players, players[0], &initial_rules(), 2);
    let mut state = replay(&[started.clone()]);
    state.status = GameStatus::Completed;
    state.winner = Some(players[0]);
    state.scores.insert(players[0], 120);
    state.scores.insert(players[1], 85);
    seat_players(&mut world, game_id, &players);
    for _ in 0..2 {
        world.rebuild(&state, &vec![started.clone()]).expect("projection rebuilds");
    }
    assert_eq!(
        world
            .run(&(), |script, _| user_score_totals(script, "user-0"))
            .expect("totals load"),
        Some(UserScoreTotals {
            user_id: "user-0".to_string(),
            completed_games: 1,
            wins: 1,
            ties: 0,
            total_score: 120,
        })
    );
    assert_eq!(
        world
            .run(&(), |script, _| user_score_totals(script, "user-1"))
            .expect("totals load")
            .expect("loser totals exist")
            .total_score,
        85
    );
    assert_eq!(world.rows_where("game_scores", "game_id", &format_id(game_id)).len(), 2);
    let before = world.rows("user_score_totals");
    world
        .run(&(), |script, _| rebuild_all_user_score_totals(script, 0))
        .expect("totals rebuild");
    assert_eq!(world.rows("user_score_totals"), before);
}

#[test]
fn projection_rebuild_is_idempotent_on_turso() {
    let mut world = World::new();
    let game_id = fresh_id();
    let players = [fresh_id(), fresh_id()];
    let started = initialize(metadata(game_id), &players, players[0], &initial_rules(), 2);
    let events = vec![started, GameEvent::TurnPassed { player_id: players[0] }];
    let state = replay(&events);
    seat_players(&mut world, game_id, &players);
    for _ in 0..2 {
        world.rebuild(&state, &events).expect("projection rebuilds");
    }
    assert_eq!(
        world
            .run(&(), |script, _| projected_revision(script, game_id))
            .expect("revision loads"),
        Some(2)
    );
    assert_eq!(world.rows_where("move_history", "game_id", &format_id(game_id)).len(), 2);
    let summaries: Vec<GameSummary> = world
        .run(&(), |script, _| user_game_summaries(script, "user-1"))
        .expect("summaries load");
    assert_eq!(summaries.len(), 1);
    assert_eq!(summaries[0].game_id, format_id(game_id));
    assert_eq!(summaries[0].canonical_revision, 2);
    assert_eq!(summaries[0].active_player_user_id.as_deref(), Some("user-1"));
}

#[test]
fn unseated_players_are_projected_without_users() {
    let mut world = World::new();
    let game_id = fresh_id();
    let players = [fresh_id(), fresh_id()];
    let started = initialize(metadata(game_id), &players, players[0], &initial_rules(), 2);
    let events = vec![started, GameEvent::TurnPassed { player_id: players[0] }];
    let state = replay(&events);
    world.rebuild(&state, &events).expect("projection rebuilds");
    let history: Vec<GameHistoryEntry> =
        world.run(&(), |script, _| game_history(script, game_id)).expect("history loads");
    assert_eq!(history.len(), 2);
    assert!(history.iter().all(|entry| entry.player_user_id.is_none()));
}

#[test]
fn rack_preferences_persist_privately_and_reconcile_authoritative_changes() {
    let mut world = World::new();
    let (alice, bob) = world.two_players();
    let challenge = world.create_challenge(&alice, &bob).expect("challenge creates");
    let game_id = world.accept_challenge(&challenge, &bob, 7).expect("game starts");
    let original = world.load_rack_order(game_id, &alice).expect("Alice order loads");
    let preferred = original.iter().rev().copied().collect::<Vec<_>>();
    let saved = world.save_rack_order(game_id, &alice, &preferred).expect("Alice order saves");
    assert_eq!(saved, preferred);
    assert_eq!(
        world.load_rack_order(game_id, &alice).expect("Alice order reloads"),
        preferred
    );
    let alice_player = world
        .run(&(), |script, _| player_for_user(script, game_id, &alice))
        .expect("Alice is seated");
    let before_exchange = world.recover_game(game_id).expect("game recovers");
    let exchanged_tile = before_exchange.racks[&alice_player][0];
    let expected_new_tiles =
        before_exchange.bag.iter().rev().take(1).map(|tile| tile.id).collect::<Vec<_>>();
    world
        .submit(
            game_id,
            &alice,
            "rack-order-exchange",
            "rack-order-exchange-idempotency",
            before_exchange.revision,
            &GameCommand::Exchange { tile_ids: vec![exchanged_tile.id] },
        )
        .expect("Alice exchanges");
    let after_exchange =
        world.load_rack_order(game_id, &alice).expect("order reconciles after an exchange");
    assert_eq!(
        after_exchange,
        preferred
            .iter()
            .copied()
            .filter(|tile_id| *tile_id != exchanged_tile.id)
            .chain(expected_new_tiles)
            .collect::<Vec<_>>()
    );
    assert_ne!(
        world.load_rack_order(game_id, &bob).expect("Bob order loads"),
        preferred,
        "one player's private order cannot overwrite the other's"
    );
    let rows = world.rows_where("rack_preferences", "game_id", &format_id(game_id));
    assert_eq!(rows.len(), 1);
    assert_eq!(text_in(&rows[0], "user_id"), Some(alice));
}

#[test]
fn malformed_rack_preferences_fail() {
    let mut world = World::new();
    let (alice, bob) = world.two_players();
    let challenge = world.create_challenge(&alice, &bob).expect("challenge creates");
    let game_id = world.accept_challenge(&challenge, &bob, 7).expect("game starts");
    let order = world.load_rack_order(game_id, &alice).expect("order loads");
    world.save_rack_order(game_id, &alice, &order).expect("order saves");
    for record in world.tables.get_mut("rack_preferences").expect("table exists") {
        record.insert("tile_order".to_string(), Cell::Text("not a list".to_string()));
    }
    let reason = match serde_json::from_str::<Vec<u16>>("not a list") {
        Ok(_) => panic!("the text is no list"),
        Err(error) => error.to_string(),
    };
    assert_eq!(
        world.load_rack_order(game_id, &alice),
        Err(RackPreferenceError::Serialization(reason))
    );
    assert_eq!(
        world.load_rack_order(game_id, "stranger"),
        Err(RackPreferenceError::Game(GameServiceError::Unauthorized))
    );
}

#[test]
fn move_plans_are_private_and_read_back() {
    let mut world = World::new();
    let (alice, bob) = world.two_players();
    let challenge = world.create_challenge(&alice, &bob).expect("challenge creates");
    let game_id = world.accept_challenge(&challenge, &bob, 7).expect("game starts");
    world
        .run(&(), |script, _| save_move_plan(script, game_id, &alice, "plan", 1, 5))
        .expect("plan saves");
    world
        .run(&(), |script, _| save_move_plan(script, game_id, &alice, "better plan", 2, 6))
        .expect("plan is replaced");
    assert_eq!(
        world.run(&(), |script, _| load_move_plan(script, game_id, &alice)),
        Ok(Some(("better plan".to_string(), 2)))
    );
    assert_eq!(world.run(&(), |script, _| load_move_plan(script, game_id, &bob)), Ok(None));
    assert_eq!(
        world.run(&(), |script, _| load_move_plan(script, game_id, "stranger")),
        Err(MovePlanError::Game(GameServiceError::Unauthorized))
    );
    world
        .run(&(), |script, _| clear_move_plan(script, game_id, &alice))
        .expect("plan clears");
    assert_eq!(world.run(&(), |script, _| load_move_plan(script, game_id, &alice)), Ok(None));
}

#[test]
fn restored_database_retains_google_identity_profile_avatar_and_session() {
    let mut world = World::new();
    let now = after(EPOCH, days(20_000));
    let identity = google(
        "recovery-subject",
        "Recovery Player",
        Some("https://lh3.googleusercontent.com/recovery"),
    );
    let (user_id, session): (String, String) = world
        .run(&(), |script, _| {
            google_login_and_create_session(script, &identity, now, days(30))
                .map(|(user, token)| (user, token.clone()))
        })
        .expect("Google session creates");
    let avatar = normalize_avatar(&png(2, 2));
    assert_eq!(
        world.run(&(), |script, _| set_google_avatar(script, &user_id, &avatar, now)),
        avatar.clone().map(Some)
    );
    let image_hash = world
        .run(&(), |script, _| profile_image_hash(script, &user_id))
        .expect("image hash loads")
        .expect("image exists");
    let attempt = world
        .run(&(), |script, _| {
            create_oidc_attempt(
                script,
                OidcAttemptPurpose::Login,
                &None,
                &None,
                now,
                minutes(1),
            )
        })
        .expect("attempt creates");

    let mut restored = World::new();
    restored.tables = world.tables.clone();
    assert_eq!(
        restored.user_for("https://accounts.google.com", "recovery-subject"),
        Some(user_id.clone())
    );
    assert_eq!(
        restored.load_profile(&user_id).expect("profile exists").display_name,
        "Recovery Player"
    );
    assert!(restored
        .run(&(), |script, _| load_profile_image(script, &user_id, &image_hash))
        .expect("image loads")
        .is_some());
    assert_eq!(restored.resolve_session(&session, now), Some(user_id));
    let late = after(now, minutes(2));
    assert!(restored
        .run(&(), |script, _| {
            claim_oidc_attempt(script, &attempt.state, &attempt.browser_binding, late)
        })
        .is_err());
}

#[test]
fn usernames_are_normalized_before_they_are_compared() {
    assert_eq!(normalize_username(" Alice_1 "), Ok("alice_1".to_string()));
    assert_eq!(normalize_username("al"), Err(AccountError::InvalidUsername));
}
