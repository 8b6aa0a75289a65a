//! Durable private multiplayer lobbies and the policy for creating them.
use crate::challenges::{
    self, create_game_for_users_with_rules_in_transaction, ChallengeError, CreationView,
    GameVisibilitySettings,
};
use crate::crypto::{self, token_hash};
use crate::game::{self, timestamp_ms, GameId, RuleProfile, Span, Timestamp};
use crate::ids::{self, id_text, read_id};
use crate::script::{self, Ask, Reply, Request, RuleChoices, Run, Script, Stop, Trace};
use crate::store::{
    self, signed, unsigned, Datum, Direction, Op, Row, Statement, Value,
};
use crate::text::{self, colon_joined, joined, same_text};
use vstd::prelude::*;

verus! {

/// Lobby failure.
#[derive(Debug, Clone, PartialEq, Eq)]
pub enum LobbyError {
    InvalidPolicy,
    InvalidSettings,
    Unavailable,
    Unauthorized,
    NotReady,
    Conflict,
    Invalid,
    Collision,
    Timestamp,
    Rules(String),
    GameCreation(ChallengeError),
}

impl LobbyError {
    /// The error in words; an outside error is told in its own.
    pub open spec fn message_of(self) -> Seq<char> {
        match self {
            LobbyError::InvalidPolicy => "game creation policy cannot admit a valid game"@,
            LobbyError::InvalidSettings => "lobby settings violate game creation policy"@,
            LobbyError::Unavailable => "lobby is unavailable, expired, closed, full, or already joined"@,
            LobbyError::Unauthorized => "only the lobby creator may perform this action"@,
            LobbyError::NotReady => "at least two valid members are required to start"@,
            LobbyError::Conflict => "lobby changed concurrently"@,
            LobbyError::Invalid => "lobby data is malformed"@,
            LobbyError::Collision => "could not generate a collision-free lobby token"@,
            LobbyError::Timestamp => "timestamp is outside the supported range"@,
            LobbyError::Rules(reason) => reason@,
            LobbyError::GameCreation(error) => error.message_of(),
        }
    }

    pub fn message(self) -> (message: String)
        ensures
            message@ == self.message_of(),
    {
        match self {
            LobbyError::InvalidPolicy => "game creation policy cannot admit a valid game".to_owned(),
            LobbyError::InvalidSettings => "lobby settings violate game creation policy".to_owned(),
            LobbyError::Unavailable => "lobby is unavailable, expired, closed, full, or already joined".to_owned(),
            LobbyError::Unauthorized => "only the lobby creator may perform this action".to_owned(),
            LobbyError::NotReady => "at least two valid members are required to start".to_owned(),
            LobbyError::Conflict => "lobby changed concurrently".to_owned(),
            LobbyError::Invalid => "lobby data is malformed".to_owned(),
            LobbyError::Collision => "could not generate a collision-free lobby token".to_owned(),
            LobbyError::Timestamp => "timestamp is outside the supported range".to_owned(),
            LobbyError::Rules(reason) => reason,
            LobbyError::GameCreation(error) => error.message(),
        }
    }
}

/// Deployment-owned limits for new games.
///
/// These limits never take part in replay: a started game carries all it needs.
#[derive(Debug, Clone, Copy, PartialEq, Eq, Structural)]
pub struct GameCreationPolicy {
    pub max_players: usize,
    pub max_board_size: u8,
    pub max_tile_sets: u8,
}

/// Who has the first turn.
#[derive(Debug, Clone, PartialEq, Eq)]
pub enum FirstPlayerPolicy {
    Random,
    Creator,
    Chosen(String),
}

/// The mathematical content of a [`FirstPlayerPolicy`].
pub enum FirstView {
    Random,
    Creator,
    Chosen(Seq<char>),
}

impl View for FirstPlayerPolicy {
    type V = FirstView;

    open spec fn view(&self) -> FirstView {
        match self {
            FirstPlayerPolicy::Random => FirstView::Random,
            FirstPlayerPolicy::Creator => FirstView::Creator,
            FirstPlayerPolicy::Chosen(user) => FirstView::Chosen(user@),
        }
    }
}

impl FirstView {
    pub open spec fn name(self) -> Seq<char> {
        match self {
            FirstView::Random => "RANDOM"@,
            FirstView::Creator => "CREATOR"@,
            FirstView::Chosen(_) => "CHOSEN"@,
        }
    }

    pub open spec fn chosen(self) -> Option<Seq<char>> {
        match self {
            FirstView::Chosen(user) => Some(user),
            _ => None,
        }
    }
}

impl FirstPlayerPolicy {
    pub fn as_str(&self) -> (name: &'static str)
        ensures
            name@ == self@.name(),
    {
        match self {
            FirstPlayerPolicy::Random => "RANDOM",
            FirstPlayerPolicy::Creator => "CREATOR",
            FirstPlayerPolicy::Chosen(_) => "CHOSEN",
        }
    }

    fn chosen_value(&self) -> (value: Value)
        ensures
            value@ == store::datum_of_option(self@.chosen()),
    {
        match self {
            FirstPlayerPolicy::Chosen(user) => Value::text(user.as_str()),
            _ => Value::Null,
        }
    }
}

/// Settings that every member sees before the start.
#[derive(Debug, Clone, PartialEq, Eq)]
pub struct LobbySettings {
    pub max_players: usize,
    pub board_size: u8,
    pub tile_set_count: u8,
    pub first_player: FirstPlayerPolicy,
}

/// The mathematical content of [`LobbySettings`].
#[verifier::ext_equal]
pub struct SettingsView {
    pub max_players: usize,
    pub board_size: u8,
    pub tile_set_count: u8,
    pub first_player: FirstView,
}

impl View for LobbySettings {
    type V = SettingsView;

    open spec fn view(&self) -> SettingsView {
        SettingsView {
            max_players: self.max_players,
            board_size: self.board_size,
            tile_set_count: self.tile_set_count,
            first_player: self.first_player@,
        }
    }
}

impl GameCreationPolicy {
    /// Whether some valid game satisfies the limits.
    pub open spec fn admits_games(self) -> bool {
        self.max_players >= 2 && self.max_board_size > 0 && self.max_tile_sets > 0
    }

    /// Whether settings are valid and within the limits.
    pub open spec fn admits(self, settings: SettingsView) -> bool {
        &&& 2 <= settings.max_players <= self.max_players
        &&& 0 < settings.board_size <= self.max_board_size
        &&& 0 < settings.tile_set_count <= self.max_tile_sets
    }

    /// Creates a policy; limits that no valid game satisfies are refused.
    pub fn new(max_players: usize, max_board_size: u8, max_tile_sets: u8) -> (policy: Result<
        GameCreationPolicy,
        LobbyError,
    >)
        ensures
            ({
                let wanted = GameCreationPolicy { max_players, max_board_size, max_tile_sets };
                policy == if wanted.admits_games() {
                    Ok::<GameCreationPolicy, LobbyError>(wanted)
                } else {
                    Err(LobbyError::InvalidPolicy)
                }
            }),
    {
        if max_players < 2 || max_board_size == 0 || max_tile_sets == 0 {
            return Err(LobbyError::InvalidPolicy);
        }
        Ok(GameCreationPolicy { max_players, max_board_size, max_tile_sets })
    }

    pub fn validate(self, settings: &LobbySettings) -> (checked: Result<(), LobbyError>)
        ensures
            checked == if self.admits(settings@) {
                Ok::<(), LobbyError>(())
            } else {
                Err(LobbyError::InvalidSettings)
            },
    {
        if settings.max_players < 2 || settings.max_players > self.max_players
            || settings.board_size == 0 || settings.board_size > self.max_board_size
            || settings.tile_set_count == 0 || settings.tile_set_count > self.max_tile_sets {
            return Err(LobbyError::InvalidSettings);
        }
        Ok(())
    }
}

/// The raw secret of a join link, handed out once.
///
/// It has no `Debug` form; what may be logged is [`LobbyInvitationToken::redacted`].
#[derive(Clone, PartialEq, Eq)]
pub struct LobbyInvitationToken(String);

impl View for LobbyInvitationToken {
    type V = Seq<char>;

    closed spec fn view(&self) -> Seq<char> {
        self.0@
    }
}

impl LobbyInvitationToken {
    fn new(secret: String) -> (token: LobbyInvitationToken)
        ensures
            token@ == secret@,
    {
        LobbyInvitationToken(secret)
    }

    pub fn expose(&self) -> (secret: &str)
        ensures
            secret@ == self@,
    {
        self.0.as_str()
    }

    /// A form for logs, the same for every secret.
    pub fn redacted(&self) -> (shown: &'static str)
        ensures
            shown@ == "LobbyInvitationToken([REDACTED])"@,
    {
        "LobbyInvitationToken([REDACTED])"
    }
}

/// A lobby member in seat order.
#[derive(Debug, Clone, PartialEq, Eq)]
pub struct LobbyMember {
    pub user_id: String,
    pub seat: usize,
}

/// The contents of a list of members: user and seat.
pub open spec fn members_view(members: Seq<LobbyMember>) -> Seq<(Seq<char>, usize)> {
    Seq::new(members.len(), |i: int| (members[i].user_id@, members[i].seat))
}

/// A lobby as its members see it, without its secret.
#[derive(Debug, Clone, PartialEq, Eq)]
pub struct GameLobby {
    pub lobby_id: String,
    pub creator_user_id: String,
    pub status: String,
    pub revision: u64,
    pub settings: LobbySettings,
    pub members: Vec<LobbyMember>,
    pub started_game_id: Option<GameId>,
}

/// The mathematical content of a [`GameLobby`].
#[verifier::ext_equal]
pub struct LobbyView {
    pub lobby_id: Seq<char>,
    pub creator_user_id: Seq<char>,
    pub status: Seq<char>,
    pub revision: u64,
    pub settings: SettingsView,
    pub members: Seq<(Seq<char>, usize)>,
    pub started_game_id: Option<GameId>,
}

impl View for GameLobby {
    type V = LobbyView;

    open spec fn view(&self) -> LobbyView {
        LobbyView {
            lobby_id: self.lobby_id@,
            creator_user_id: self.creator_user_id@,
            status: self.status@,
            revision: self.revision,
            settings: self.settings@,
            members: members_view(self.members@),
            started_game_id: self.started_game_id,
        }
    }
}

/// The text in a column that must be present: a text, or nothing where it holds something else.
pub open spec fn optional_column(row: Row, name: Seq<char>) -> Option<Option<Seq<char>>> {
    match row.column(name) {
        None => None,
        Some(Value::Text(text)) => Some(Some(text@)),
        Some(_) => Some(None),
    }
}

fn optional_string(row: &Row, name: &str) -> (found: Option<Option<String>>)
    ensures
        match found {
            None => optional_column(*row, name@) is None,
            Some(value) => optional_column(*row, name@) == Some(text::opt_view(value)),
        },
{
    match row.get(name) {
        None => None,
        Some(Value::Text(text)) => Some(Some(text.clone())),
        Some(_) => Some(None),
    }
}

pub open spec fn first_player_of(row: Row) -> Option<FirstView> {
    let name = row.text_at("first_player_policy"@);
    match optional_column(row, "chosen_first_user_id"@) {
        None => None,
        Some(chosen) => if name == Some("RANDOM"@) {
            Some(FirstView::Random)
        } else if name == Some("CREATOR"@) {
            Some(FirstView::Creator)
        } else if name == Some("CHOSEN"@) {
            match chosen {
                Some(user) => Some(FirstView::Chosen(user)),
                None => None,
            }
        } else {
            None
        },
    }
}

fn read_first_player(row: &Row) -> (first: Option<FirstPlayerPolicy>)
    ensures
        match first {
            Some(first) => first_player_of(*row) == Some(first@),
            None => first_player_of(*row) is None,
        },
{
    let chosen = match optional_string(row, "chosen_first_user_id") {
        Some(chosen) => chosen,
        None => return None,
    };
    let name = match row.get_text("first_player_policy") {
        Some(name) => name,
        None => return None,
    };
    if same_text(name.as_str(), "RANDOM") {
        Some(FirstPlayerPolicy::Random)
    } else if same_text(name.as_str(), "CREATOR") {
        Some(FirstPlayerPolicy::Creator)
    } else if same_text(name.as_str(), "CHOSEN") {
        match chosen {
            Some(user) => Some(FirstPlayerPolicy::Chosen(user)),
            None => None,
        }
    } else {
        None
    }
}

/// The settings in a stored lobby row.
pub open spec fn settings_of(row: Row) -> Option<SettingsView> {
    match (
        first_player_of(row),
        store::unsigned_of(row.integer_at("max_players"@)),
        store::unsigned_of(row.integer_at("board_size"@)),
        store::unsigned_of(row.integer_at("tile_set_count"@)),
    ) {
        (
            Some(first_player),
            Some(max_players),
            Some(board_size),
            Some(tile_set_count),
        ) => if max_players <= usize::MAX && board_size <= u8::MAX && tile_set_count <= u8::MAX {
            Some(
                SettingsView {
                    max_players: max_players as usize,
                    board_size: board_size as u8,
                    tile_set_count: tile_set_count as u8,
                    first_player,
                },
            )
        } else {
            None
        },
        _ => None,
    }
}

fn read_settings(row: &Row) -> (settings: Option<LobbySettings>)
    ensures
        match settings {
            Some(settings) => settings_of(*row) == Some(settings@),
            None => settings_of(*row) is None,
        },
{
    match (
        read_first_player(row),
        unsigned(row.get_integer("max_players")),
        unsigned(row.get_integer("board_size")),
        unsigned(row.get_integer("tile_set_count")),
    ) {
        (
            Some(first_player),
            Some(max_players),
            Some(board_size),
            Some(tile_set_count),
        ) => if max_players <= usize::MAX as u64 && board_size <= 255 && tile_set_count <= 255 {
            Some(
                LobbySettings {
                    max_players: max_players as usize,
                    board_size: board_size as u8,
                    tile_set_count: tile_set_count as u8,
                    first_player,
                },
            )
        } else {
            None
        },
        _ => None,
    }
}

/// The member in one stored row.
pub open spec fn member_row(row: Row) -> Option<(Seq<char>, usize)> {
    match (row.text_at("user_id"@), store::unsigned_of(row.integer_at("seat"@))) {
        (Some(user), Some(seat)) => if seat <= usize::MAX {
            Some((user, seat as usize))
        } else {
            None
        },
        _ => None,
    }
}

/// Whether every row is a well-formed member.
pub open spec fn members_well_formed(rows: Seq<Row>) -> bool {
    forall|i: int| 0 <= i < rows.len() ==> member_row(#[trigger] rows[i]) is Some
}

/// Load the members of a lobby in seat order.
pub open spec fn members_run(trace: Trace, lobby: Seq<char>) -> Run<
    Seq<(Seq<char>, usize)>,
    LobbyError,
> {
    script::query(
        trace,
        Op::select("game_lobby_members"@).where_text("lobby_id"@, lobby).sort(
            "seat"@,
            Direction::Ascending,
        ),
        |rows: Seq<Row>, trace: Trace|
            if members_well_formed(rows) {
                script::done(trace, Seq::new(rows.len(), |i: int| member_row(rows[i])->0))
            } else {
                script::fail(trace, LobbyError::Invalid)
            },
    )
}

fn member_rows<'a>(script: &mut Script<'a>, lobby_id: &str) -> (loaded: Result<
    Vec<LobbyMember>,
    Stop<'a, LobbyError>,
>)
    ensures
        script::ran(loaded, final(script)@, |members: Vec<LobbyMember>| members_view(members@))
            == members_run(old(script)@, lobby_id@),
{
    let rows = script.query(
        Statement::select("game_lobby_members").where_text("lobby_id", lobby_id).sort(
            "seat",
            Direction::Ascending,
        ),
    )?;
    let ghost after = script@;
    let mut members: Vec<LobbyMember> = Vec::new();
    let mut index: usize = 0;
    while index < rows.len()
        invariant
            index <= rows@.len(),
            members@.len() == index,
            script@ == after,
            forall|i: int|
                0 <= i < index ==> member_row(rows@[i]) == Some(
                    ((#[trigger] members@[i]).user_id@, members@[i].seat),
                ),
            members_run(old(script)@, lobby_id@) == if members_well_formed(rows@) {
                script::done(after, Seq::new(rows@.len(), |i: int| member_row(rows@[i])->0))
            } else {
                script::fail(after, LobbyError::Invalid)
            },
        decreases rows@.len() - index,
    {
        assert(rows@[index as int] == rows@[index as int]);
        match (rows[index].get_text("user_id"), unsigned(rows[index].get_integer("seat"))) {
            (Some(user_id), Some(seat)) => {
                if seat > usize::MAX as u64 {
                    assert(member_row(rows@[index as int]) is None);
                    return Err(Stop::Fail(LobbyError::Invalid));
                }
                members.push(LobbyMember { user_id, seat: seat as usize });
            },
            _ => {
                assert(member_row(rows@[index as int]) is None);
                return Err(Stop::Fail(LobbyError::Invalid));
            },
        }
        index = index + 1;
    }
    assert(members_well_formed(rows@)) by {
        assert forall|i: int| 0 <= i < rows@.len() implies member_row(
            #[trigger] rows@[i],
        ) is Some by {
            assert(member_row(rows@[i]) == Some((members@[i].user_id@, members@[i].seat)));
        }
    }
    assert(members_view(members@) =~= Seq::new(rows@.len(), |i: int| member_row(rows@[i])->0));
    Ok(members)
}

/// The index of a user among the members, if the user is one.
pub open spec fn member_index(members: Seq<(Seq<char>, usize)>, user: Seq<char>) -> Option<int>
    decreases members.len(),
{
    if members.len() == 0 {
        None
    } else if members[0].0 == user {
        Some(0)
    } else {
        match member_index(members.skip(1), user) {
            Some(index) => Some(index + 1),
            None => None,
        }
    }
}

fn find_member(members: &Vec<LobbyMember>, user: &str) -> (found: Option<usize>)
    ensures
        match found {
            Some(index) => member_index(members_view(members@), user@) == Some(index as int)
                && index < members@.len(),
            None => member_index(members_view(members@), user@) is None,
        },
{
    let ghost content = members_view(members@);
    let mut index: usize = 0;
    assert(content.skip(0) =~= content);
    while index < members.len()
        invariant
            index <= members@.len(),
            content == members_view(members@),
            member_index(content, user@) == match member_index(content.skip(index as int), user@) {
                Some(rest) => Some(rest + index),
                None => None,
            },
        decreases members@.len() - index,
    {
        assert(content.skip(index as int).skip(1) =~= content.skip(index + 1));
        if same_text(members[index].user_id.as_str(), user) {
            return Some(index);
        }
        index = index + 1;
    }
    None
}

pub open spec fn insert_member_op(
    lobby: Seq<char>,
    user: Seq<char>,
    seat: int,
    joined_at_ms: i64,
) -> Op {
    Op::insert("game_lobby_members"@)
        .text("lobby_member_id"@, text::colon_pair(lobby, user))
        .text("lobby_id"@, lobby)
        .text("user_id"@, user)
        .integer("seat"@, seat)
        .integer("joined_at_ms"@, joined_at_ms as int)
}

/// Seat a user.
pub open spec fn insert_member_run(
    trace: Trace,
    lobby: Seq<char>,
    user: Seq<char>,
    seat: int,
    joined_at_ms: i64,
) -> Run<(), LobbyError> {
    if seat > i64::MAX {
        script::fail(trace, LobbyError::Invalid)
    } else {
        script::perform(
            trace,
            insert_member_op(lobby, user, seat, joined_at_ms),
            |trace: Trace| script::done(trace, ()),
        )
    }
}

fn insert_member<'a>(
    script: &mut Script<'a>,
    lobby_id: &str,
    user_id: &str,
    seat: usize,
    joined_at_ms: i64,
) -> (inserted: Result<(), Stop<'a, LobbyError>>)
    ensures
        script::ran(inserted, final(script)@, |inserted: ()| inserted) == insert_member_run(
            old(script)@,
            lobby_id@,
            user_id@,
            seat as int,
            joined_at_ms,
        ),
{
    let stored: i64 = match signed(seat as u64) {
        Some(stored) => stored,
        None => return Err(Stop::Fail(LobbyError::Invalid)),
    };
    script.perform(
        Statement::insert("game_lobby_members")
            .text("lobby_member_id", colon_joined(lobby_id, user_id).as_str())
            .text("lobby_id", lobby_id)
            .text("user_id", user_id)
            .integer("seat", stored)
            .integer("joined_at_ms", joined_at_ms),
    )
}

/// A secret made of two identities.
pub open spec fn secret_of(first: u128, second: u128) -> Seq<char> {
    ids::id_text_of(first) + ids::id_text_of(second)
}

pub open spec fn insert_lobby_op(
    lobby: Seq<char>,
    creator: Seq<char>,
    settings: SettingsView,
    hash: Seq<char>,
    now_ms: i64,
    expires_ms: i64,
) -> Op {
    Op::insert("game_lobbies"@)
        .text("lobby_id"@, lobby)
        .text("creator_user_id"@, creator)
        .text("status"@, "OPEN"@)
        .integer("revision"@, 1)
        .integer("max_players"@, settings.max_players as int)
        .integer("board_size"@, settings.board_size as int)
        .integer("tile_set_count"@, settings.tile_set_count as int)
        .text("first_player_policy"@, settings.first_player.name())
        .value("chosen_first_user_id"@, store::datum_of_option(settings.first_player.chosen()))
        .text("invitation_token_hash"@, hash)
        .integer("invitation_expires_at_ms"@, expires_ms as int)
        .value("started_game_id"@, Datum::Null)
        .integer("created_at_ms"@, now_ms as int)
        .integer("updated_at_ms"@, now_ms as int)
}

/// Store a lobby and its creator's seat in one transaction.
pub open spec fn store_lobby_run(
    trace: Trace,
    lobby: Seq<char>,
    creator: Seq<char>,
    settings: SettingsView,
    secret: Seq<char>,
    now_ms: i64,
    expires_ms: i64,
) -> Run<(Seq<char>, Seq<char>), LobbyError> {
    script::perform(
        trace,
        Op::begin(),
        |trace: Trace|
            if settings.max_players > i64::MAX {
                script::fail(trace, LobbyError::Invalid)
            } else {
                script::perform(
                    trace,
                    insert_lobby_op(
                        lobby,
                        creator,
                        settings,
                        crypto::token_hash_of(secret),
                        now_ms,
                        expires_ms,
                    ),
                    |trace: Trace|
                        script::chain(
                            insert_member_run(trace, lobby, creator, 0, now_ms),
                            |inserted: (), trace: Trace|
                                script::perform(
                                    trace,
                                    Op::commit(),
                                    |trace: Trace| script::done(trace, (lobby, secret)),
                                ),
                        ),
                )
            },
    )
}

/// Try up to `attempts` fresh secrets until one is unused.
pub open spec fn try_lobby_run(
    trace: Trace,
    creator: Seq<char>,
    settings: SettingsView,
    now_ms: i64,
    expires_ms: i64,
    attempts: int,
) -> Run<(Seq<char>, Seq<char>), LobbyError>
    decreases attempts,
{
    if attempts <= 0 {
        script::fail(trace, LobbyError::Collision)
    } else {
        script::draw(
            trace,
            3,
            |drawn: Seq<u128>, trace: Trace|
                script::query(
                    trace,
                    Op::select("game_lobbies"@).where_text(
                        "invitation_token_hash"@,
                        crypto::token_hash_of(secret_of(drawn[1], drawn[2])),
                    ),
                    |used: Seq<Row>, trace: Trace|
                        if used.len() > 0 {
                            try_lobby_run(
                                trace,
                                creator,
                                settings,
                                now_ms,
                                expires_ms,
                                attempts - 1,
                            )
                        } else {
                            store_lobby_run(
                                trace,
                                ids::id_text_of(drawn[0]),
                                creator,
                                settings,
                                secret_of(drawn[1], drawn[2]),
                                now_ms,
                                expires_ms,
                            )
                        },
                ),
        )
    }
}

/// Create an open lobby whose creator is its first member.
pub open spec fn create_lobby_run(
    trace: Trace,
    creator: Seq<char>,
    settings: SettingsView,
    policy: GameCreationPolicy,
    now: Timestamp,
    lifetime: Span,
) -> Run<(Seq<char>, Seq<char>), LobbyError> {
    if !policy.admits(settings) || (settings.first_player is Chosen
        && settings.first_player.chosen() != Some(creator)) {
        script::fail(trace, LobbyError::InvalidSettings)
    } else {
        match game::moment_after(now, lifetime) {
            None => script::fail(trace, LobbyError::Timestamp),
            Some(expires) => match (game::millis_at(now), game::millis_at(expires)) {
                (Some(now_ms), Some(expires_ms)) => try_lobby_run(
                    trace,
                    creator,
                    settings,
                    now_ms,
                    expires_ms,
                    4,
                ),
                _ => script::fail(trace, LobbyError::Timestamp),
            },
        }
    }
}

fn store_lobby<'a>(
    script: &mut Script<'a>,
    lobby_id: String,
    creator_user_id: &str,
    settings: &LobbySettings,
    secret: String,
    now_ms: i64,
    expires_ms: i64,
) -> (stored: Result<(String, LobbyInvitationToken), Stop<'a, LobbyError>>)
    ensures
        script::ran(
            stored,
            final(script)@,
            |made: (String, LobbyInvitationToken)| (made.0@, made.1@),
        ) == store_lobby_run(
            old(script)@,
            lobby_id@,
            creator_user_id@,
            settings@,
            secret@,
            now_ms,
            expires_ms,
        ),
{
    script.perform(Statement::begin())?;
    let max_players: i64 = match signed(settings.max_players as u64) {
        Some(max_players) => max_players,
        None => return Err(Stop::Fail(LobbyError::Invalid)),
    };
    script.perform(
        Statement::insert("game_lobbies")
            .text("lobby_id", lobby_id.as_str())
            .text("creator_user_id", creator_user_id)
            .text("status", "OPEN")
            .integer("revision", 1)
            .integer("max_players", max_players)
            .integer("board_size", settings.board_size as i64)
            .integer("tile_set_count", settings.tile_set_count as i64)
            .text("first_player_policy", settings.first_player.as_str())
            .value("chosen_first_user_id", settings.first_player.chosen_value())
            .text("invitation_token_hash", token_hash(secret.as_str()).as_str())
            .integer("invitation_expires_at_ms", expires_ms)
            .value("started_game_id", Value::Null)
            .integer("created_at_ms", now_ms)
            .integer("updated_at_ms", now_ms),
    )?;
    insert_member(script, lobby_id.as_str(), creator_user_id, 0, now_ms)?;
    script.perform(Statement::commit())?;
    Ok((lobby_id, LobbyInvitationToken::new(secret)))
}

/// Creates an open private lobby with its creator's membership, atomically.
///
/// Returns the lobby's identity and the secret of its join link; only the secret's digest is stored.
pub fn create_lobby<'a>(
    script: &mut Script<'a>,
    creator_user_id: &str,
    settings: &LobbySettings,
    policy: GameCreationPolicy,
    now: Timestamp,
    invitation_lifetime: Span,
) -> (created: Result<(String, LobbyInvitationToken), Stop<'a, LobbyError>>)
    requires
        invitation_lifetime.valid(),
    ensures
        script::ran(
            created,
            final(script)@,
            |made: (String, LobbyInvitationToken)| (made.0@, made.1@),
        ) == create_lobby_run(
            old(script)@,
            creator_user_id@,
            settings@,
            policy,
            now,
            invitation_lifetime,
        ),
{
    if policy.validate(settings).is_err() {
        return Err(Stop::Fail(LobbyError::InvalidSettings));
    }
    if let FirstPlayerPolicy::Chosen(user_id) = &settings.first_player {
        if !same_text(user_id.as_str(), creator_user_id) {
            return Err(Stop::Fail(LobbyError::InvalidSettings));
        }
    }
    let expires = match now.plus(invitation_lifetime) {
        Some(expires) => expires,
        None => return Err(Stop::Fail(LobbyError::Timestamp)),
    };
    let (now_ms, expires_ms): (i64, i64) = match (timestamp_ms(now), timestamp_ms(expires)) {
        (Some(now_ms), Some(expires_ms)) => (now_ms, expires_ms),
        _ => return Err(Stop::Fail(LobbyError::Timestamp)),
    };
    let mut attempts: u8 = 4;
    while attempts > 0
        invariant
            create_lobby_run(
                old(script)@,
                creator_user_id@,
                settings@,
                policy,
                now,
                invitation_lifetime,
            ) == try_lobby_run(
                script@,
                creator_user_id@,
                settings@,
                now_ms,
                expires_ms,
                attempts as int,
            ),
        decreases attempts,
    {
        let drawn = script.draw(3)?;
        let lobby_id: String = id_text(drawn[0]);
        let secret: String = joined(id_text(drawn[1]).as_str(), id_text(drawn[2]).as_str());
        let used = script.query(
            Statement::select("game_lobbies").where_text(
                "invitation_token_hash",
                token_hash(secret.as_str()).as_str(),
            ),
        )?;
        if used.len() == 0 {
            return store_lobby(
                script,
                lobby_id,
                creator_user_id,
                settings,
                secret,
                now_ms,
                expires_ms,
            );
        }
        attempts = attempts - 1;
    }
    Err(Stop::Fail(LobbyError::Collision))
}

/// A change of an open lobby that expects `revision` and advances it.
pub open spec fn advance_op(changes: Op, lobby: Seq<char>, revision: i64, now_ms: i64) -> Op {
    changes
        .integer("revision"@, revision + 1)
        .integer("updated_at_ms"@, now_ms as int)
        .where_text("lobby_id"@, lobby)
        .where_text("status"@, "OPEN"@)
        .where_eq("revision"@, Datum::Integer(revision as int))
}

/// Make a change where the lobby still has the revision of `row`, then commit.
pub open spec fn advance_run<T>(
    trace: Trace,
    changes: Op,
    lobby: Seq<char>,
    row: Row,
    now: Timestamp,
    result: T,
) -> Run<T, LobbyError> {
    match row.integer_at("revision"@) {
        None => script::fail(trace, LobbyError::Invalid),
        Some(revision) => if revision == i64::MAX {
            script::fail(trace, LobbyError::Invalid)
        } else {
            match game::millis_at(now) {
                None => script::fail(trace, LobbyError::Timestamp),
                Some(now_ms) => script::query(
                    trace,
                    advance_op(changes, lobby, revision, now_ms),
                    |updated: Seq<Row>, trace: Trace|
                        if updated.len() != 1 {
                            script::fail(trace, LobbyError::Conflict)
                        } else {
                            script::perform(
                                trace,
                                Op::commit(),
                                |trace: Trace| script::done(trace, result),
                            )
                        },
                ),
            }
        },
    }
}

fn advance<'a>(
    script: &mut Script<'a>,
    changes: Statement,
    lobby_id: &str,
    row: &Row,
    now: Timestamp,
) -> (advanced: Result<(), Stop<'a, LobbyError>>)
    ensures
        script::ran(advanced, final(script)@, |advanced: ()| advanced) == advance_run(
            old(script)@,
            changes@,
            lobby_id@,
            *row,
            now,
            (),
        ),
{
    let revision: i64 = match row.get_integer("revision") {
        Some(revision) => revision,
        None => return Err(Stop::Fail(LobbyError::Invalid)),
    };
    if revision == i64::MAX {
        return Err(Stop::Fail(LobbyError::Invalid));
    }
    let now_ms: i64 = match timestamp_ms(now) {
        Some(now_ms) => now_ms,
        None => return Err(Stop::Fail(LobbyError::Timestamp)),
    };
    let updated = script.query(
        changes
            .integer("revision", revision + 1)
            .integer("updated_at_ms", now_ms)
            .where_text("lobby_id", lobby_id)
            .where_text("status", "OPEN")
            .where_eq("revision", Value::Integer(revision)),
    )?;
    if updated.len() != 1 {
        return Err(Stop::Fail(LobbyError::Conflict));
    }
    script.perform(Statement::commit())
}

/// Take a user into the open lobby in `row`: there must be room, time and no earlier membership.
pub open spec fn admit_run(
    trace: Trace,
    row: Row,
    lobby: Seq<char>,
    user: Seq<char>,
    policy: GameCreationPolicy,
    now: Timestamp,
) -> Run<Seq<char>, LobbyError> {
    match settings_of(row) {
        None => script::fail(trace, LobbyError::Invalid),
        Some(settings) => if !policy.admits(settings) {
            script::fail(trace, LobbyError::InvalidSettings)
        } else {
            match (row.integer_at("invitation_expires_at_ms"@), game::millis_at(now)) {
                (None, _) => script::fail(trace, LobbyError::Invalid),
                (_, None) => script::fail(trace, LobbyError::Timestamp),
                (Some(expires_ms), Some(now_ms)) => if expires_ms <= now_ms {
                    script::fail(trace, LobbyError::Unavailable)
                } else {
                    script::chain(
                        members_run(trace, lobby),
                        |members: Seq<(Seq<char>, usize)>, trace: Trace|
                            if members.len() >= settings.max_players || member_index(
                                members,
                                user,
                            ) is Some {
                                script::fail(trace, LobbyError::Unavailable)
                            } else {
                                script::chain(
                                    insert_member_run(
                                        trace,
                                        lobby,
                                        user,
                                        members.len() as int,
                                        now_ms,
                                    ),
                                    |inserted: (), trace: Trace|
                                        advance_run(
                                            trace,
                                            Op::update("game_lobbies"@),
                                            lobby,
                                            row,
                                            now,
                                            lobby,
                                        ),
                                )
                            },
                    )
                },
            }
        },
    }
}

fn take_in<'a>(
    script: &mut Script<'a>,
    row: &Row,
    lobby_id: String,
    user_id: &str,
    policy: GameCreationPolicy,
    now: Timestamp,
) -> (admitted: Result<String, Stop<'a, LobbyError>>)
    ensures
        script::ran(admitted, final(script)@, |lobby: String| lobby@) == admit_run(
            old(script)@,
            *row,
            lobby_id@,
            user_id@,
            policy,
            now,
        ),
{
    let settings = match read_settings(row) {
        Some(settings) => settings,
        None => return Err(Stop::Fail(LobbyError::Invalid)),
    };
    if policy.validate(&settings).is_err() {
        return Err(Stop::Fail(LobbyError::InvalidSettings));
    }
    let expires_ms: i64 = match row.get_integer("invitation_expires_at_ms") {
        Some(expires_ms) => expires_ms,
        None => return Err(Stop::Fail(LobbyError::Invalid)),
    };
    let now_ms: i64 = match timestamp_ms(now) {
        Some(now_ms) => now_ms,
        None => return Err(Stop::Fail(LobbyError::Timestamp)),
    };
    if expires_ms <= now_ms {
        return Err(Stop::Fail(LobbyError::Unavailable));
    }
    let members = member_rows(script, lobby_id.as_str())?;
    if members.len() >= settings.max_players || find_member(&members, user_id).is_some() {
        return Err(Stop::Fail(LobbyError::Unavailable));
    }
    insert_member(script, lobby_id.as_str(), user_id, members.len(), now_ms)?;
    advance(script, Statement::update("game_lobbies"), lobby_id.as_str(), row, now)?;
    Ok(lobby_id)
}

/// Join the open lobby with a secret.
pub open spec fn join_lobby_run(
    trace: Trace,
    secret: Seq<char>,
    user: Seq<char>,
    policy: GameCreationPolicy,
    now: Timestamp,
) -> Run<Seq<char>, LobbyError> {
    script::perform(
        trace,
        Op::begin(),
        |trace: Trace|
            script::query(
                trace,
                Op::select("game_lobbies"@).where_text(
                    "invitation_token_hash"@,
                    crypto::token_hash_of(secret),
                ).where_text("status"@, "OPEN"@),
                |rows: Seq<Row>, trace: Trace|
                    if rows.len() == 0 {
                        script::fail(trace, LobbyError::Unavailable)
                    } else {
                        match rows[0].text_at("lobby_id"@) {
                            None => script::fail(trace, LobbyError::Invalid),
                            Some(lobby) => admit_run(trace, rows[0], lobby, user, policy, now),
                        }
                    },
            ),
    )
}

/// Joins an open lobby through its secret token.
///
/// Invalid, expired, closed and full lobbies, and a second join, are all `Unavailable`.
pub fn join_lobby<'a>(
    script: &mut Script<'a>,
    token: &str,
    user_id: &str,
    policy: GameCreationPolicy,
    now: Timestamp,
) -> (lobby: Result<String, Stop<'a, LobbyError>>)
    ensures
        script::ran(lobby, final(script)@, |lobby: String| lobby@) == join_lobby_run(
            old(script)@,
            token@,
            user_id@,
            policy,
            now,
        ),
{
    script.perform(Statement::begin())?;
    let rows = script.query(
        Statement::select("game_lobbies").where_text(
            "invitation_token_hash",
            token_hash(token).as_str(),
        ).where_text("status", "OPEN"),
    )?;
    if rows.len() == 0 {
        return Err(Stop::Fail(LobbyError::Unavailable));
    }
    match rows[0].get_text("lobby_id") {
        Some(lobby_id) => take_in(script, &rows[0], lobby_id, user_id, policy, now),
        None => Err(Stop::Fail(LobbyError::Invalid)),
    }
}

/// Load an open lobby by identity inside a transaction.
pub open spec fn open_lobby_run<T>(
    trace: Trace,
    lobby: Seq<char>,
    rest: spec_fn(Row, Trace) -> Run<T, LobbyError>,
) -> Run<T, LobbyError> {
    script::perform(
        trace,
        Op::begin(),
        |trace: Trace|
            script::query(
                trace,
                Op::select("game_lobbies"@).where_text("lobby_id"@, lobby).where_text(
                    "status"@,
                    "OPEN"@,
                ),
                |rows: Seq<Row>, trace: Trace|
                    if rows.len() == 0 {
                        script::fail(trace, LobbyError::Unavailable)
                    } else {
                        rest(rows[0], trace)
                    },
            ),
    )
}

fn open_lobby<'a>(script: &mut Script<'a>, lobby_id: &str) -> (found: Result<
    &'a Row,
    Stop<'a, LobbyError>,
>)
    ensures
        script::ran(found, final(script)@, |row: &'a Row| *row) == open_lobby_run(
            old(script)@,
            lobby_id@,
            |row: Row, trace: Trace| script::done(trace, row),
        ),
{
    script.perform(Statement::begin())?;
    let rows = script.query(
        Statement::select("game_lobbies").where_text("lobby_id", lobby_id).where_text(
            "status",
            "OPEN",
        ),
    )?;
    if rows.len() == 0 {
        return Err(Stop::Fail(LobbyError::Unavailable));
    }
    Ok(&rows[0])
}

/// Joins an open lobby through its unguessable durable identity.
pub fn join_lobby_by_id<'a>(
    script: &mut Script<'a>,
    lobby_id: &str,
    user_id: &str,
    policy: GameCreationPolicy,
    now: Timestamp,
) -> (lobby: Result<String, Stop<'a, LobbyError>>)
    ensures
        script::ran(lobby, final(script)@, |lobby: String| lobby@) == open_lobby_run(
            old(script)@,
            lobby_id@,
            |row: Row, trace: Trace| admit_run(trace, row, lobby_id@, user_id@, policy, now),
        ),
{
    let row = open_lobby(script, lobby_id)?;
    take_in(script, row, lobby_id.to_owned(), user_id, policy, now)
}

/// Load a lobby for one of its members.
pub open spec fn load_lobby_run(trace: Trace, lobby: Seq<char>, user: Seq<char>) -> Run<
    LobbyView,
    LobbyError,
> {
    script::chain(
        members_run(trace, lobby),
        |members: Seq<(Seq<char>, usize)>, trace: Trace|
            if member_index(members, user) is None {
                script::fail(trace, LobbyError::Unavailable)
            } else {
                script::query(
                    trace,
                    Op::select("game_lobbies"@).where_text("lobby_id"@, lobby),
                    |rows: Seq<Row>, trace: Trace|
                        if rows.len() == 0 {
                            script::fail(trace, LobbyError::Unavailable)
                        } else {
                            match lobby_row(rows[0], lobby, members) {
                                Some(view) => script::done(trace, view),
                                None => script::fail(trace, LobbyError::Invalid),
                            }
                        },
                )
            },
    )
}

/// The started game in a stored lobby row: none, an identity, or malformed.
pub open spec fn started_game_of(row: Row) -> Option<Option<GameId>> {
    match optional_column(row, "started_game_id"@) {
        None => None,
        Some(None) => Some(None),
        Some(Some(id)) => match ids::parsed_id(id) {
            Some(id) => Some(Some(id)),
            None => None,
        },
    }
}

/// The lobby in a stored row.
pub open spec fn lobby_row(row: Row, lobby: Seq<char>, members: Seq<(Seq<char>, usize)>) -> Option<
    LobbyView,
> {
    match (
        row.text_at("creator_user_id"@),
        row.text_at("status"@),
        store::unsigned_of(row.integer_at("revision"@)),
        settings_of(row),
        started_game_of(row),
    ) {
        (
            Some(creator_user_id),
            Some(status),
            Some(revision),
            Some(settings),
            Some(started_game_id),
        ) => Some(
            LobbyView {
                lobby_id: lobby,
                creator_user_id,
                status,
                revision,
                settings,
                members,
                started_game_id,
            },
        ),
        _ => None,
    }
}

fn read_started_game(row: &Row) -> (started: Option<Option<GameId>>)
    ensures
        started == started_game_of(*row),
{
    match optional_string(row, "started_game_id") {
        None => None,
        Some(None) => Some(None),
        Some(Some(id)) => match read_id(id.as_str()) {
            Some(id) => Some(Some(id)),
            None => None,
        },
    }
}

/// Loads a lobby for one current member.
pub fn load_lobby<'a>(script: &mut Script<'a>, lobby_id: &str, user_id: &str) -> (loaded: Result<
    GameLobby,
    Stop<'a, LobbyError>,
>)
    ensures
        script::ran(loaded, final(script)@, |lobby: GameLobby| lobby@) == load_lobby_run(
            old(script)@,
            lobby_id@,
            user_id@,
        ),
{
    let members = member_rows(script, lobby_id)?;
    if find_member(&members, user_id).is_none() {
        return Err(Stop::Fail(LobbyError::Unavailable));
    }
    let rows = script.query(Statement::select("game_lobbies").where_text("lobby_id", lobby_id))?;
    if rows.len() == 0 {
        return Err(Stop::Fail(LobbyError::Unavailable));
    }
    let row = &rows[0];
    match (
        row.get_text("creator_user_id"),
        row.get_text("status"),
        unsigned(row.get_integer("revision")),
        read_settings(row),
        read_started_game(row),
    ) {
        (
            Some(creator_user_id),
            Some(status),
            Some(revision),
            Some(settings),
            Some(started_game_id),
        ) => Ok(
            GameLobby {
                lobby_id: lobby_id.to_owned(),
                creator_user_id,
                status,
                revision,
                settings,
                members,
                started_game_id,
            },
        ),
        _ => Err(Stop::Fail(LobbyError::Invalid)),
    }
}

/// What a lobby row shows of its creator.
pub open spec fn creator_check(row: Row, user: Seq<char>) -> Option<LobbyError> {
    match row.text_at("creator_user_id"@) {
        None => Some(LobbyError::Invalid),
        Some(creator) => if creator != user {
            Some(LobbyError::Unauthorized)
        } else {
            None
        },
    }
}

fn check_creator(row: &Row, user_id: &str) -> (refused: Option<LobbyError>)
    ensures
        refused == creator_check(*row, user_id@),
{
    match row.get_text("creator_user_id") {
        None => Some(LobbyError::Invalid),
        Some(creator) => if !same_text(creator.as_str(), user_id) {
            Some(LobbyError::Unauthorized)
        } else {
            None
        },
    }
}

pub open spec fn settings_changes(settings: SettingsView) -> Op {
    Op::update("game_lobbies"@)
        .integer("max_players"@, settings.max_players as int)
        .integer("board_size"@, settings.board_size as int)
        .integer("tile_set_count"@, settings.tile_set_count as int)
        .text("first_player_policy"@, settings.first_player.name())
        .value("chosen_first_user_id"@, store::datum_of_option(settings.first_player.chosen()))
}

/// Change the settings in `row`.
pub open spec fn change_settings_run(
    trace: Trace,
    row: Row,
    lobby: Seq<char>,
    settings: SettingsView,
    now: Timestamp,
) -> Run<(), LobbyError> {
    if row.integer_at("revision"@) is None || settings.max_players > i64::MAX {
        script::fail(trace, LobbyError::Invalid)
    } else {
        advance_run(trace, settings_changes(settings), lobby, row, now, ())
    }
}

/// Update the settings of an open lobby as its creator.
pub open spec fn update_settings_run(
    trace: Trace,
    lobby: Seq<char>,
    creator: Seq<char>,
    settings: SettingsView,
    policy: GameCreationPolicy,
    now: Timestamp,
) -> Run<(), LobbyError> {
    if !policy.admits(settings) {
        script::fail(trace, LobbyError::InvalidSettings)
    } else {
        open_lobby_run(
            trace,
            lobby,
            |row: Row, trace: Trace|
                match creator_check(row, creator) {
                    Some(error) => script::fail(trace, error),
                    None => match settings.first_player {
                        FirstView::Chosen(chosen) => script::chain(
                            members_run(trace, lobby),
                            |members: Seq<(Seq<char>, usize)>, trace: Trace|
                                if member_index(members, chosen) is None {
                                    script::fail(trace, LobbyError::NotReady)
                                } else {
                                    change_settings_run(trace, row, lobby, settings, now)
                                },
                        ),
                        _ => change_settings_run(trace, row, lobby, settings, now),
                    },
                },
        )
    }
}

/// Updates the settings of an open lobby as its creator; a chosen first player must be a member.
pub fn update_lobby_settings<'a>(
    script: &mut Script<'a>,
    lobby_id: &str,
    creator_user_id: &str,
    settings: &LobbySettings,
    policy: GameCreationPolicy,
    now: Timestamp,
) -> (updated: Result<(), Stop<'a, LobbyError>>)
    ensures
        script::ran(updated, final(script)@, |updated: ()| updated) == update_settings_run(
            old(script)@,
            lobby_id@,
            creator_user_id@,
            settings@,
            policy,
            now,
        ),
{
    if policy.validate(settings).is_err() {
        return Err(Stop::Fail(LobbyError::InvalidSettings));
    }
    let row = open_lobby(script, lobby_id)?;
    if let Some(error) = check_creator(row, creator_user_id) {
        return Err(Stop::Fail(error));
    }
    if let FirstPlayerPolicy::Chosen(chosen) = &settings.first_player {
        let members = member_rows(script, lobby_id)?;
        if find_member(&members, chosen.as_str()).is_none() {
            return Err(Stop::Fail(LobbyError::NotReady));
        }
    }
    if row.get_integer("revision").is_none() {
        return Err(Stop::Fail(LobbyError::Invalid));
    }
    let max_players: i64 = match signed(settings.max_players as u64) {
        Some(max_players) => max_players,
        None => return Err(Stop::Fail(LobbyError::Invalid)),
    };
    advance(
        script,
        Statement::update("game_lobbies")
            .integer("max_players", max_players)
            .integer("board_size", settings.board_size as i64)
            .integer("tile_set_count", settings.tile_set_count as i64)
            .text("first_player_policy", settings.first_player.as_str())
            .value("chosen_first_user_id", settings.first_player.chosen_value()),
        lobby_id,
        row,
        now,
    )
}

/// Cancel an open lobby as its creator.
pub open spec fn cancel_lobby_run(
    trace: Trace,
    lobby: Seq<char>,
    creator: Seq<char>,
    now: Timestamp,
) -> Run<(), LobbyError> {
    open_lobby_run(
        trace,
        lobby,
        |row: Row, trace: Trace|
            match creator_check(row, creator) {
                Some(error) => script::fail(trace, error),
                None => advance_run(
                    trace,
                    Op::update("game_lobbies"@).text("status"@, "CANCELLED"@),
                    lobby,
                    row,
                    now,
                    (),
                ),
            },
    )
}

/// Cancels an open lobby as its creator, which revokes its join link.
pub fn cancel_lobby<'a>(
    script: &mut Script<'a>,
    lobby_id: &str,
    creator_user_id: &str,
    now: Timestamp,
) -> (cancelled: Result<(), Stop<'a, LobbyError>>)
    ensures
        script::ran(cancelled, final(script)@, |cancelled: ()| cancelled) == cancel_lobby_run(
            old(script)@,
            lobby_id@,
            creator_user_id@,
            now,
        ),
{
    let row = open_lobby(script, lobby_id)?;
    if let Some(error) = check_creator(row, creator_user_id) {
        return Err(Stop::Fail(error));
    }
    advance(
        script,
        Statement::update("game_lobbies").text("status", "CANCELLED"),
        lobby_id,
        row,
        now,
    )
}

pub open spec fn move_member_op(lobby: Seq<char>, user: Seq<char>, seat: int) -> Op {
    Op::update("game_lobby_members"@).integer("seat"@, seat).where_text(
        "lobby_id"@,
        lobby,
    ).where_text("user_id"@, user)
}

/// Where compaction puts the member with a given index: first aside below zero, then in place.
pub open spec fn seat_in_pass(index: int, aside: bool) -> int {
    if aside {
        -index - 1
    } else {
        index
    }
}

/// Move the members from `index` on to the seats of one compaction pass.
pub open spec fn move_members_run(
    trace: Trace,
    lobby: Seq<char>,
    members: Seq<(Seq<char>, usize)>,
    aside: bool,
    index: int,
) -> Run<(), LobbyError>
    decreases members.len() - index,
{
    if index >= members.len() {
        script::done(trace, ())
    } else if index > i64::MAX {
        script::fail(trace, LobbyError::Invalid)
    } else {
        script::perform(
            trace,
            move_member_op(lobby, members[index].0, seat_in_pass(index, aside)),
            |trace: Trace| move_members_run(trace, lobby, members, aside, index + 1),
        )
    }
}

fn move_members<'a>(
    script: &mut Script<'a>,
    lobby_id: &str,
    members: &Vec<LobbyMember>,
    aside: bool,
) -> (moved: Result<(), Stop<'a, LobbyError>>)
    ensures
        script::ran(moved, final(script)@, |moved: ()| moved) == move_members_run(
            old(script)@,
            lobby_id@,
            members_view(members@),
            aside,
            0,
        ),
{
    let ghost content = members_view(members@);
    let mut index: usize = 0;
    while index < members.len()
        invariant
            index <= members@.len(),
            content == members_view(members@),
            move_members_run(old(script)@, lobby_id@, content, aside, 0) == move_members_run(
                script@,
                lobby_id@,
                content,
                aside,
                index as int,
            ),
        decreases members@.len() - index,
    {
        assert(content[index as int].0 == members@[index as int].user_id@);
        let stored: i64 = match signed(index as u64) {
            Some(stored) => stored,
            None => return Err(Stop::Fail(LobbyError::Invalid)),
        };
        let seat: i64 = if aside {
            -stored - 1
        } else {
            stored
        };
        script.perform(
            Statement::update("game_lobby_members").integer("seat", seat).where_text(
                "lobby_id",
                lobby_id,
            ).where_text("user_id", members[index].user_id.as_str()),
        )?;
        index = index + 1;
    }
    Ok(())
}

/// Remove a member who is not the creator and close the gap in the seats.
pub open spec fn leave_lobby_run(
    trace: Trace,
    lobby: Seq<char>,
    user: Seq<char>,
    now: Timestamp,
) -> Run<(), LobbyError> {
    open_lobby_run(
        trace,
        lobby,
        |row: Row, trace: Trace|
            match row.text_at("creator_user_id"@) {
                None => script::fail(trace, LobbyError::Invalid),
                Some(creator) => if creator == user {
                    script::fail(trace, LobbyError::Unauthorized)
                } else {
                    script::query(
                        trace,
                        Op::delete("game_lobby_members"@).where_text(
                            "lobby_id"@,
                            lobby,
                        ).where_text("user_id"@, user),
                        |removed: Seq<Row>, trace: Trace|
                            if removed.len() != 1 {
                                script::fail(trace, LobbyError::Unavailable)
                            } else {
                                compact_run(trace, lobby, row, now)
                            },
                    )
                },
            },
    )
}

/// Give the remaining members consecutive seats from zero and advance the lobby.
pub open spec fn compact_run(trace: Trace, lobby: Seq<char>, row: Row, now: Timestamp) -> Run<
    (),
    LobbyError,
> {
    script::chain(
        members_run(trace, lobby),
        |members: Seq<(Seq<char>, usize)>, trace: Trace|
            script::chain(
                move_members_run(trace, lobby, members, true, 0),
                |moved: (), trace: Trace|
                    script::chain(
                        move_members_run(trace, lobby, members, false, 0),
                        |moved: (), trace: Trace|
                            advance_run(
                                trace,
                                Op::update("game_lobbies"@),
                                lobby,
                                row,
                                now,
                                (),
                            ),
                    ),
            ),
    )
}

/// Removes a non-creator from an open lobby and compacts the seat order.
pub fn leave_lobby<'a>(
    script: &mut Script<'a>,
    lobby_id: &str,
    user_id: &str,
    now: Timestamp,
) -> (left: Result<(), Stop<'a, LobbyError>>)
    ensures
        script::ran(left, final(script)@, |left: ()| left) == leave_lobby_run(
            old(script)@,
            lobby_id@,
            user_id@,
            now,
        ),
{
    let row = open_lobby(script, lobby_id)?;
    match row.get_text("creator_user_id") {
        None => return Err(Stop::Fail(LobbyError::Invalid)),
        Some(creator) => if same_text(creator.as_str(), user_id) {
            return Err(Stop::Fail(LobbyError::Unauthorized));
        },
    }
    let removed = script.query(
        Statement::delete("game_lobby_members").where_text("lobby_id", lobby_id).where_text(
            "user_id",
            user_id,
        ),
    )?;
    if removed.len() != 1 {
        return Err(Stop::Fail(LobbyError::Unavailable));
    }
    let members = member_rows(script, lobby_id)?;
    move_members(script, lobby_id, &members, true)?;
    move_members(script, lobby_id, &members, false)?;
    advance(script, Statement::update("game_lobbies"), lobby_id, row, now)
}

/// A number below `upper` that a seed picks: its share of the seed's range.
pub open spec fn scaled(seed: u64, upper: int) -> int {
    seed * upper / 0x1_0000_0000_0000_0000
}

/// The scaled seed is below its bound.
pub proof fn scaled_in_range(seed: u64, upper: int)
    requires
        upper > 0,
    ensures
        0 <= scaled(seed, upper) < upper,
{
    assert(0 <= seed * upper < 0x1_0000_0000_0000_0000 * upper) by (nonlinear_arith)
        requires
            upper > 0,
            0 <= seed < 0x1_0000_0000_0000_0000,
    ;
}

/// Scales a seed to a number below `upper`.
pub fn scale_seed(seed: u64, upper: usize) -> (index: usize)
    ensures
        index == scaled(seed, upper as int),
        upper > 0 ==> index < upper,
{
    proof {
        if upper > 0 {
            scaled_in_range(seed, upper as int);
        } else {
            assert(seed * upper == 0) by (nonlinear_arith)
                requires
                    upper == 0,
            ;
        }
        assert(seed * upper <= 0xffff_ffff_ffff_ffff * 0xffff_ffff_ffff_ffff)
            by (nonlinear_arith)
            requires
                0 <= seed <= 0xffff_ffff_ffff_ffff,
                0 <= upper <= 0xffff_ffff_ffff_ffff,
        ;
    }
    ((seed as u128 * upper as u128) / 0x1_0000_0000_0000_0000) as usize
}

/// The index of the first player that the settings pick.
pub open spec fn first_index(
    first: FirstView,
    members: Seq<(Seq<char>, usize)>,
    creator: Seq<char>,
    seed: u64,
) -> Option<int> {
    match first {
        FirstView::Creator => member_index(members, creator),
        FirstView::Chosen(user) => member_index(members, user),
        FirstView::Random => Some(scaled(seed, members.len() as int)),
    }
}

/// The users of a list of members.
pub open spec fn member_users(members: Seq<(Seq<char>, usize)>) -> Seq<Seq<char>> {
    Seq::new(members.len(), |i: int| members[i].0)
}

fn users_of(members: &Vec<LobbyMember>) -> (users: Vec<String>)
    ensures
        text::texts_view(users@) == member_users(members_view(members@)),
{
    let mut users: Vec<String> = Vec::new();
    let mut index: usize = 0;
    while index < members.len()
        invariant
            index <= members@.len(),
            users@.len() == index,
            forall|i: int| 0 <= i < index ==> (#[trigger] users@[i])@ == members@[i].user_id@,
        decreases members@.len() - index,
    {
        users.push(members[index].user_id.clone());
        index = index + 1;
    }
    assert(text::texts_view(users@) =~= member_users(members_view(members@)));
    users
}

fn creation_stop<'a>(stop: Stop<'a, ChallengeError>) -> (wrapped: Stop<'a, LobbyError>)
    ensures
        wrapped == (match stop {
            Stop::Wait(request) => Stop::Wait(request),
            Stop::Failed(number) => Stop::Failed(number),
            Stop::Mismatch(number) => Stop::Mismatch(number),
            Stop::Fail(error) => Stop::Fail(LobbyError::GameCreation(error)),
        }),
{
    match stop {
        Stop::Wait(request) => Stop::Wait(request),
        Stop::Failed(number) => Stop::Failed(number),
        Stop::Mismatch(number) => Stop::Mismatch(number),
        Stop::Fail(error) => Stop::Fail(LobbyError::GameCreation(error)),
    }
}

/// Create the game of the lobby in `row` and mark the lobby started.
pub open spec fn launch_run(
    trace: Trace,
    row: Row,
    lobby: Seq<char>,
    settings: SettingsView,
    users: Seq<Seq<char>>,
    first: int,
    now: Timestamp,
    seed: u64,
) -> Run<GameId, LobbyError> {
    script::consult(
        trace,
        Ask::GenerateRules(
            RuleChoices {
                board_size: settings.board_size,
                tile_set_count: settings.tile_set_count,
            },
        ),
        |reply: Reply| script::reply_rules(reply),
        |rules: Result<RuleProfile, String>, trace: Trace|
            match rules {
                Err(reason) => script::fail(trace, LobbyError::Rules(reason)),
                Ok(rules) => script::chain(
                    script::lift(
                        challenges::create_game_run(
                            trace,
                            CreationView {
                                users,
                                first,
                                rules,
                                now,
                                seed,
                                key: "start-lobby:"@ + lobby,
                                visibility: GameVisibilitySettings::hidden(),
                            },
                        ),
                        |error: ChallengeError| LobbyError::GameCreation(error),
                    ),
                    |game: GameId, trace: Trace| finish_start_run(trace, row, lobby, game, now),
                ),
            },
    )
}

/// Mark a lobby started with a game, then commit.
pub open spec fn finish_start_run(
    trace: Trace,
    row: Row,
    lobby: Seq<char>,
    game: GameId,
    now: Timestamp,
) -> Run<GameId, LobbyError> {
    match row.integer_at("revision"@) {
        None => script::fail(trace, LobbyError::Invalid),
        Some(revision) => if revision == i64::MAX {
            script::fail(trace, LobbyError::Invalid)
        } else {
            match game::millis_at(now) {
                None => script::fail(trace, LobbyError::Timestamp),
                Some(now_ms) => script::query(
                    trace,
                    mark_started_op(lobby, revision, game, now_ms),
                    |updated: Seq<Row>, trace: Trace|
                        if updated.len() != 1 {
                            script::fail(trace, LobbyError::Conflict)
                        } else {
                            script::perform(
                                trace,
                                Op::commit(),
                                |trace: Trace| script::done(trace, game),
                            )
                        },
                ),
            }
        },
    }
}

pub open spec fn mark_started_op(lobby: Seq<char>, revision: i64, game: GameId, now_ms: i64) -> Op {
    Op::update("game_lobbies"@)
        .text("status"@, "STARTED"@)
        .integer("revision"@, revision + 1)
        .text("started_game_id"@, ids::id_text_of(game))
        .integer("updated_at_ms"@, now_ms as int)
        .where_text("lobby_id"@, lobby)
        .where_text("status"@, "OPEN"@)
        .where_eq("revision"@, Datum::Integer(revision as int))
}

fn finish_start<'a>(
    script: &mut Script<'a>,
    row: &Row,
    lobby_id: &str,
    game_id: GameId,
    now: Timestamp,
) -> (finished: Result<GameId, Stop<'a, LobbyError>>)
    ensures
        script::ran(finished, final(script)@, |game: GameId| game) == finish_start_run(
            old(script)@,
            *row,
            lobby_id@,
            game_id,
            now,
        ),
{
    let revision: i64 = match row.get_integer("revision") {
        Some(revision) => revision,
        None => return Err(Stop::Fail(LobbyError::Invalid)),
    };
    if revision == i64::MAX {
        return Err(Stop::Fail(LobbyError::Invalid));
    }
    let now_ms: i64 = match timestamp_ms(now) {
        Some(now_ms) => now_ms,
        None => return Err(Stop::Fail(LobbyError::Timestamp)),
    };
    let updated = script.query(
        Statement::update("game_lobbies")
            .text("status", "STARTED")
            .integer("revision", revision + 1)
            .text("started_game_id", id_text(game_id).as_str())
            .integer("updated_at_ms", now_ms)
            .where_text("lobby_id", lobby_id)
            .where_text("status", "OPEN")
            .where_eq("revision", Value::Integer(revision)),
    )?;
    if updated.len() != 1 {
        return Err(Stop::Fail(LobbyError::Conflict));
    }
    script.perform(Statement::commit())?;
    Ok(game_id)
}

/// Start the open lobby in `row`.
pub open spec fn start_open_run(
    trace: Trace,
    row: Row,
    lobby: Seq<char>,
    creator: Seq<char>,
    policy: GameCreationPolicy,
    now: Timestamp,
    seed: u64,
) -> Run<GameId, LobbyError> {
    match settings_of(row) {
        None => script::fail(trace, LobbyError::Invalid),
        Some(settings) => if !policy.admits(settings) {
            script::fail(trace, LobbyError::InvalidSettings)
        } else {
            script::chain(
                members_run(trace, lobby),
                |members: Seq<(Seq<char>, usize)>, trace: Trace|
                    if members.len() < 2 {
                        script::fail(trace, LobbyError::NotReady)
                    } else {
                        match first_index(settings.first_player, members, creator, seed) {
                            None => script::fail(trace, LobbyError::NotReady),
                            Some(first) => launch_run(
                                trace,
                                row,
                                lobby,
                                settings,
                                member_users(members),
                                first,
                                now,
                                seed,
                            ),
                        }
                    },
            )
        },
    }
}

/// Start a lobby as its creator; a lobby that has started yields its game again.
pub open spec fn start_lobby_run(
    trace: Trace,
    lobby: Seq<char>,
    creator: Seq<char>,
    policy: GameCreationPolicy,
    now: Timestamp,
    seed: u64,
) -> Run<GameId, LobbyError> {
    script::perform(
        trace,
        Op::begin(),
        |trace: Trace|
            script::query(
                trace,
                Op::select("game_lobbies"@).where_text("lobby_id"@, lobby),
                |rows: Seq<Row>, trace: Trace|
                    if rows.len() == 0 {
                        script::fail(trace, LobbyError::Unavailable)
                    } else {
                        match (creator_check(rows[0], creator), rows[0].text_at("status"@)) {
                            (Some(error), _) => script::fail(trace, error),
                            (None, None) => script::fail(trace, LobbyError::Invalid),
                            (None, Some(status)) => if status == "STARTED"@ {
                                match started_game_of(rows[0]) {
                                    Some(Some(game)) => script::done(trace, game),
                                    _ => script::fail(trace, LobbyError::Invalid),
                                }
                            } else if status != "OPEN"@ {
                                script::fail(trace, LobbyError::Unavailable)
                            } else {
                                start_open_run(
                                    trace,
                                    rows[0],
                                    lobby,
                                    creator,
                                    policy,
                                    now,
                                    seed,
                                )
                            },
                        }
                    },
            ),
    )
}

/// Starts an open lobby exactly once and returns the canonical game.
pub fn start_lobby<'a>(
    script: &mut Script<'a>,
    lobby_id: &str,
    creator_user_id: &str,
    policy: GameCreationPolicy,
    now: Timestamp,
    shuffle_seed: u64,
) -> (started: Result<GameId, Stop<'a, LobbyError>>)
    ensures
        script::ran(started, final(script)@, |game: GameId| game) == start_lobby_run(
            old(script)@,
            lobby_id@,
            creator_user_id@,
            policy,
            now,
            shuffle_seed,
        ),
{
    script.perform(Statement::begin())?;
    let rows = script.query(Statement::select("game_lobbies").where_text("lobby_id", lobby_id))?;
    if rows.len() == 0 {
        return Err(Stop::Fail(LobbyError::Unavailable));
    }
    let row = &rows[0];
    if let Some(error) = check_creator(row, creator_user_id) {
        return Err(Stop::Fail(error));
    }
    let status = match row.get_text("status") {
        Some(status) => status,
        None => return Err(Stop::Fail(LobbyError::Invalid)),
    };
    if same_text(status.as_str(), "STARTED") {
        return match read_started_game(row) {
            Some(Some(game)) => Ok(game),
            _ => Err(Stop::Fail(LobbyError::Invalid)),
        };
    }
    if !same_text(status.as_str(), "OPEN") {
        return Err(Stop::Fail(LobbyError::Unavailable));
    }
    let settings = match read_settings(row) {
        Some(settings) => settings,
        None => return Err(Stop::Fail(LobbyError::Invalid)),
    };
    if policy.validate(&settings).is_err() {
        return Err(Stop::Fail(LobbyError::InvalidSettings));
    }
    let members = member_rows(script, lobby_id)?;
    if members.len() < 2 {
        return Err(Stop::Fail(LobbyError::NotReady));
    }
    let users = users_of(&members);
    let found: Option<usize> = match &settings.first_player {
        FirstPlayerPolicy::Creator => find_member(&members, creator_user_id),
        FirstPlayerPolicy::Chosen(user) => find_member(&members, user.as_str()),
        FirstPlayerPolicy::Random => Some(scale_seed(shuffle_seed, members.len())),
    };
    let first: usize = match found {
        Some(first) => first,
        None => return Err(Stop::Fail(LobbyError::NotReady)),
    };
    let choices = RuleChoices {
        board_size: settings.board_size,
        tile_set_count: settings.tile_set_count,
    };
    let rules = match script.rules(Request::GenerateRules(choices))? {
        Ok(rules) => rules,
        Err(reason) => return Err(Stop::Fail(LobbyError::Rules(reason.clone()))),
    };
    let game_id: GameId = match create_game_for_users_with_rules_in_transaction(
        script,
        &users,
        first,
        rules,
        now,
        shuffle_seed,
        joined("start-lobby:", lobby_id).as_str(),
        GameVisibilitySettings::default(),
    ) {
        Ok(game_id) => game_id,
        Err(stop) => return Err(creation_stop(stop)),
    };
    finish_start(script, row, lobby_id, game_id, now)
}

} // verus!
