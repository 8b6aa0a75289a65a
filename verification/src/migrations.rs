//! The versioned schema, as data, and what each version leaves behind.
use vstd::prelude::*;

verus! {

/// A table of the application.
#[derive(Debug, Clone, Copy, PartialEq, Eq, Structural)]
pub enum Table {
    Users,
    PasswordCredentials,
    AuthSessions,
    Games,
    GamePlayers,
    Challenges,
    Invitations,
    ProjectionCheckpoints,
    GameSummaries,
    MoveHistory,
    UserScoreTotals,
    GameJournal,
    GameSnapshots,
    GameCommands,
    GameScores,
    RackPreferences,
    DefinitionCache,
}

impl Table {
    pub open spec fn spec_name(self) -> Seq<char> {
        match self {
            Table::Users => "users"@,
            Table::PasswordCredentials => "password_credentials"@,
            Table::AuthSessions => "auth_sessions"@,
            Table::Games => "games"@,
            Table::GamePlayers => "game_players"@,
            Table::Challenges => "challenges"@,
            Table::Invitations => "invitations"@,
            Table::ProjectionCheckpoints => "projection_checkpoints"@,
            Table::GameSummaries => "game_summaries"@,
            Table::MoveHistory => "move_history"@,
            Table::UserScoreTotals => "user_score_totals"@,
            Table::GameJournal => "game_journal"@,
            Table::GameSnapshots => "game_snapshots"@,
            Table::GameCommands => "game_commands"@,
            Table::GameScores => "game_scores"@,
            Table::RackPreferences => "rack_preferences"@,
            Table::DefinitionCache => "definition_cache"@,
        }
    }

    /// The name by which the store knows the table.
    pub fn name(self) -> (name: &'static str)
        ensures
            name@ == self.spec_name(),
    {
        match self {
            Table::Users => "users",
            Table::PasswordCredentials => "password_credentials",
            Table::AuthSessions => "auth_sessions",
            Table::Games => "games",
            Table::GamePlayers => "game_players",
            Table::Challenges => "challenges",
            Table::Invitations => "invitations",
            Table::ProjectionCheckpoints => "projection_checkpoints",
            Table::GameSummaries => "game_summaries",
            Table::MoveHistory => "move_history",
            Table::UserScoreTotals => "user_score_totals",
            Table::GameJournal => "game_journal",
            Table::GameSnapshots => "game_snapshots",
            Table::GameCommands => "game_commands",
            Table::GameScores => "game_scores",
            Table::RackPreferences => "rack_preferences",
            Table::DefinitionCache => "definition_cache",
        }
    }
}

/// An index of the application.
#[derive(Debug, Clone, Copy, PartialEq, Eq, Structural)]
pub enum Index {
    UsersUsernameNormalized,
    GamePlayersGameUser,
    InvitationsTokenHash,
    MoveHistoryGameRevision,
    GameJournalGameRevision,
    GameJournalGameCommand,
    GameJournalGameIdempotency,
    GameCommandsGameCommand,
    GameCommandsGameIdempotency,
    GameScoresUser,
    RackPreferencesGameUser,
}

impl Index {
    pub open spec fn spec_name(self) -> Seq<char> {
        match self {
            Index::UsersUsernameNormalized => "idx_users_username_normalized"@,
            Index::GamePlayersGameUser => "idx_game_players_game_user"@,
            Index::InvitationsTokenHash => "idx_invitations_token_hash"@,
            Index::MoveHistoryGameRevision => "idx_move_history_game_revision"@,
            Index::GameJournalGameRevision => "idx_game_journal_game_revision"@,
            Index::GameJournalGameCommand => "idx_game_journal_game_command"@,
            Index::GameJournalGameIdempotency => "idx_game_journal_game_idempotency"@,
            Index::GameCommandsGameCommand => "idx_game_commands_game_command"@,
            Index::GameCommandsGameIdempotency => "idx_game_commands_game_idempotency"@,
            Index::GameScoresUser => "idx_game_scores_user"@,
            Index::RackPreferencesGameUser => "idx_rack_preferences_game_user"@,
        }
    }

    /// The name by which the store knows the index.
    pub fn name(self) -> (name: &'static str)
        ensures
            name@ == self.spec_name(),
    {
        match self {
            Index::UsersUsernameNormalized => "idx_users_username_normalized",
            Index::GamePlayersGameUser => "idx_game_players_game_user",
            Index::InvitationsTokenHash => "idx_invitations_token_hash",
            Index::MoveHistoryGameRevision => "idx_move_history_game_revision",
            Index::GameJournalGameRevision => "idx_game_journal_game_revision",
            Index::GameJournalGameCommand => "idx_game_journal_game_command",
            Index::GameJournalGameIdempotency => "idx_game_journal_game_idempotency",
            Index::GameCommandsGameCommand => "idx_game_commands_game_command",
            Index::GameCommandsGameIdempotency => "idx_game_commands_game_idempotency",
            Index::GameScoresUser => "idx_game_scores_user",
            Index::RackPreferencesGameUser => "idx_rack_preferences_game_user",
        }
    }
}

/// Different table names stand for different tables.
pub proof fn table_names_differ(left: Table, right: Table)
    ensures
        left.spec_name() == right.spec_name() ==> left == right,
{
    reveal_strlit("users");
    assert("users"@.len() == 5);
    reveal_strlit("password_credentials");
    assert("password_credentials"@.len() == 20);
    reveal_strlit("auth_sessions");
    assert("auth_sessions"@.len() == 13);
    reveal_strlit("games");
    assert("games"@.len() == 5);
    reveal_strlit("game_players");
    assert("game_players"@.len() == 12);
    reveal_strlit("challenges");
    assert("challenges"@.len() == 10);
    reveal_strlit("invitations");
    assert("invitations"@.len() == 11);
    reveal_strlit("projection_checkpoints");
    assert("projection_checkpoints"@.len() == 22);
    reveal_strlit("game_summaries");
    assert("game_summaries"@.len() == 14);
    reveal_strlit("move_history");
    assert("move_history"@.len() == 12);
    reveal_strlit("user_score_totals");
    assert("user_score_totals"@.len() == 17);
    reveal_strlit("game_journal");
    assert("game_journal"@.len() == 12);
    reveal_strlit("game_snapshots");
    assert("game_snapshots"@.len() == 14);
    reveal_strlit("game_commands");
    assert("game_commands"@.len() == 13);
    reveal_strlit("game_scores");
    assert("game_scores"@.len() == 11);
    reveal_strlit("rack_preferences");
    assert("rack_preferences"@.len() == 16);
    reveal_strlit("definition_cache");
    assert("definition_cache"@.len() == 16);
    assert("games"@[0] == 'g');
    assert("users"@[0] == 'u');
    assert("auth_sessions"@[0] == 'a');
    assert("game_commands"@[0] == 'g');
    assert("game_players"@[0] == 'g');
    assert("move_history"@[0] == 'm');
    assert("game_journal"@[5] == 'j');
    assert("game_players"@[5] == 'p');
    assert("game_journal"@[0] == 'g');
    assert("game_scores"@[0] == 'g');
    assert("invitations"@[0] == 'i');
    assert("game_snapshots"@[6] == 'n');
    assert("game_summaries"@[6] == 'u');
    assert("definition_cache"@[0] == 'd');
    assert("rack_preferences"@[0] == 'r');
}

/// Different index names stand for different indexes.
pub proof fn index_names_differ(left: Index, right: Index)
    ensures
        left.spec_name() == right.spec_name() ==> left == right,
{
    reveal_strlit("idx_users_username_normalized");
    assert("idx_users_username_normalized"@.len() == 29);
    reveal_strlit("idx_game_players_game_user");
    assert("idx_game_players_game_user"@.len() == 26);
    reveal_strlit("idx_invitations_token_hash");
    assert("idx_invitations_token_hash"@.len() == 26);
    reveal_strlit("idx_move_history_game_revision");
    assert("idx_move_history_game_revision"@.len() == 30);
    reveal_strlit("idx_game_journal_game_revision");
    assert("idx_game_journal_game_revision"@.len() == 30);
    reveal_strlit("idx_game_journal_game_command");
    assert("idx_game_journal_game_command"@.len() == 29);
    reveal_strlit("idx_game_journal_game_idempotency");
    assert("idx_game_journal_game_idempotency"@.len() == 33);
    reveal_strlit("idx_game_commands_game_command");
    assert("idx_game_commands_game_command"@.len() == 30);
    reveal_strlit("idx_game_commands_game_idempotency");
    assert("idx_game_commands_game_idempotency"@.len() == 34);
    reveal_strlit("idx_game_scores_user");
    assert("idx_game_scores_user"@.len() == 20);
    reveal_strlit("idx_rack_preferences_game_user");
    assert("idx_rack_preferences_game_user"@.len() == 30);
    assert("idx_game_journal_game_command"@[4] == 'g');
    assert("idx_users_username_normalized"@[4] == 'u');
    assert("idx_game_players_game_user"@[4] == 'g');
    assert("idx_invitations_token_hash"@[4] == 'i');
    assert("idx_move_history_game_revision"@[4] == 'm');
    assert("idx_rack_preferences_game_user"@[4] == 'r');
    assert("idx_game_journal_game_revision"@[4] == 'g');
    assert("idx_game_commands_game_command"@[4] == 'g');
    assert("idx_game_commands_game_command"@[9] == 'c');
    assert("idx_game_journal_game_revision"@[9] == 'j');
}

/// What a column holds.
#[derive(Debug, Clone, Copy, PartialEq, Eq, Structural)]
pub enum ColumnKind {
    Text,
    BigInt,
}

/// One column of a table.
#[derive(Debug, Clone, Copy, PartialEq, Eq)]
pub struct Column {
    pub name: &'static str,
    pub kind: ColumnKind,
    pub nullable: bool,
}

/// The mathematical content of a [`Column`].
#[verifier::ext_equal]
pub struct ColumnView {
    pub name: Seq<char>,
    pub kind: ColumnKind,
    pub nullable: bool,
}

impl View for Column {
    type V = ColumnView;

    open spec fn view(&self) -> ColumnView {
        ColumnView { name: self.name@, kind: self.kind, nullable: self.nullable }
    }
}

/// One step of a migration.
#[derive(Debug, Clone, PartialEq, Eq)]
pub enum Change {
    CreateTable { table: Table, columns: Vec<Column>, primary_key: &'static str },
    /// Drops a table if it is there.
    DropTable(Table),
    CreateIndex { index: Index, table: Table, covered: Vec<&'static str>, unique: bool },
    DropIndex { index: Index, table: Table, if_exists: bool },
}

/// The mathematical content of a [`Change`].
#[verifier::ext_equal]
pub enum ChangeView {
    CreateTable { table: Table, columns: Seq<ColumnView>, primary_key: Seq<char> },
    DropTable(Table),
    CreateIndex { index: Index, table: Table, covered: Seq<Seq<char>>, unique: bool },
    DropIndex { index: Index, table: Table, if_exists: bool },
}

pub open spec fn columns_view(columns: Seq<Column>) -> Seq<ColumnView> {
    Seq::new(columns.len(), |i: int| columns[i]@)
}

pub open spec fn names_view(names: Seq<&'static str>) -> Seq<Seq<char>> {
    Seq::new(names.len(), |i: int| names[i]@)
}

impl View for Change {
    type V = ChangeView;

    open spec fn view(&self) -> ChangeView {
        match self {
            Change::CreateTable { table, columns, primary_key } => ChangeView::CreateTable {
                table: *table,
                columns: columns_view(columns@),
                primary_key: primary_key@,
            },
            Change::DropTable(table) => ChangeView::DropTable(*table),
            Change::CreateIndex { index, table, covered, unique } => ChangeView::CreateIndex {
                index: *index,
                table: *table,
                covered: names_view(covered@),
                unique: *unique,
            },
            Change::DropIndex { index, table, if_exists } => ChangeView::DropIndex {
                index: *index,
                table: *table,
                if_exists: *if_exists,
            },
        }
    }
}

/// A schema version: how it is reached from the one before it, and how it is left.
#[derive(Debug, Clone, PartialEq, Eq)]
pub struct Migration {
    pub id: &'static str,
    pub up: Change,
    pub down: Change,
}

/// The mathematical content of a [`Migration`].
#[verifier::ext_equal]
pub struct MigrationView {
    pub id: Seq<char>,
    pub up: ChangeView,
    pub down: ChangeView,
}

impl View for Migration {
    type V = MigrationView;

    open spec fn view(&self) -> MigrationView {
        MigrationView { id: self.id@, up: self.up@, down: self.down@ }
    }
}

pub open spec fn migrations_view(migrations: Seq<Migration>) -> Seq<MigrationView> {
    Seq::new(migrations.len(), |i: int| migrations[i]@)
}

/// The columns of a table under construction.
pub struct Columns {
    columns: Vec<Column>,
}

/// The mathematical content of [`Columns`].
pub struct ColumnList {
    pub columns: Seq<ColumnView>,
}

impl View for Columns {
    type V = ColumnList;

    closed spec fn view(&self) -> ColumnList {
        ColumnList { columns: columns_view(self.columns@) }
    }
}

impl ColumnList {
    pub open spec fn new() -> ColumnList {
        ColumnList { columns: Seq::empty() }
    }

    pub open spec fn with(self, name: Seq<char>, kind: ColumnKind, nullable: bool) -> ColumnList {
        ColumnList { columns: self.columns.push(ColumnView { name, kind, nullable }) }
    }

    pub open spec fn text(self, name: Seq<char>) -> ColumnList {
        self.with(name, ColumnKind::Text, false)
    }

    pub open spec fn nullable_text(self, name: Seq<char>) -> ColumnList {
        self.with(name, ColumnKind::Text, true)
    }

    pub open spec fn bigint(self, name: Seq<char>) -> ColumnList {
        self.with(name, ColumnKind::BigInt, false)
    }

    pub open spec fn nullable_bigint(self, name: Seq<char>) -> ColumnList {
        self.with(name, ColumnKind::BigInt, true)
    }
}

impl Columns {
    fn new() -> (columns: Columns)
        ensures
            columns@ == ColumnList::new(),
    {
        let columns = Columns { columns: Vec::new() };
        assert(columns@.columns =~= Seq::empty());
        columns
    }

    fn with(self, name: &'static str, kind: ColumnKind, nullable: bool) -> (columns: Columns)
        ensures
            columns@ == self@.with(name@, kind, nullable),
    {
        let mut columns = self.columns;
        columns.push(Column { name, kind, nullable });
        assert(columns_view(columns@) =~= self@.with(name@, kind, nullable).columns);
        Columns { columns }
    }

    fn text(self, name: &'static str) -> (columns: Columns)
        ensures
            columns@ == self@.text(name@),
    {
        self.with(name, ColumnKind::Text, false)
    }

    fn nullable_text(self, name: &'static str) -> (columns: Columns)
        ensures
            columns@ == self@.nullable_text(name@),
    {
        self.with(name, ColumnKind::Text, true)
    }

    fn bigint(self, name: &'static str) -> (columns: Columns)
        ensures
            columns@ == self@.bigint(name@),
    {
        self.with(name, ColumnKind::BigInt, false)
    }

    fn nullable_bigint(self, name: &'static str) -> (columns: Columns)
        ensures
            columns@ == self@.nullable_bigint(name@),
    {
        self.with(name, ColumnKind::BigInt, true)
    }
}

/// A version that creates a table; leaving it drops the table.
pub open spec fn table_version(
    id: Seq<char>,
    table: Table,
    columns: ColumnList,
    primary_key: Seq<char>,
) -> MigrationView {
    MigrationView {
        id,
        up: ChangeView::CreateTable { table, columns: columns.columns, primary_key },
        down: ChangeView::DropTable(table),
    }
}

/// A version that creates an index; leaving it drops the index.
pub open spec fn index_version(
    id: Seq<char>,
    index: Index,
    table: Table,
    covered: Seq<Seq<char>>,
    unique: bool,
) -> MigrationView {
    MigrationView {
        id,
        up: ChangeView::CreateIndex { index, table, covered, unique },
        down: ChangeView::DropIndex { index, table, if_exists: true },
    }
}

/// A version that drops a unique index; leaving it creates the index again.
pub open spec fn dropping_version(
    id: Seq<char>,
    index: Index,
    table: Table,
    covered: Seq<Seq<char>>,
) -> MigrationView {
    MigrationView {
        id,
        up: ChangeView::DropIndex { index, table, if_exists: false },
        down: ChangeView::CreateIndex { index, table, covered, unique: true },
    }
}

fn table_migration(id: &'static str, table: Table, columns: Columns, primary_key: &'static str) -> (
    migration: Migration)
    ensures
        migration@ == table_version(id@, table, columns@, primary_key@),
{
    Migration {
        id,
        up: Change::CreateTable { table, columns: columns.columns, primary_key },
        down: Change::DropTable(table),
    }
}

/// One column name.
pub open spec fn one(name: Seq<char>) -> Seq<Seq<char>> {
    seq![name]
}

/// Two column names.
pub open spec fn two(first: Seq<char>, second: Seq<char>) -> Seq<Seq<char>> {
    seq![first, second]
}

fn one_name(name: &'static str) -> (names: Vec<&'static str>)
    ensures
        names_view(names@) == one(name@),
{
    let mut names: Vec<&'static str> = Vec::new();
    names.push(name);
    assert(names_view(names@) =~= one(name@));
    names
}

fn two_names(first: &'static str, second: &'static str) -> (names: Vec<&'static str>)
    ensures
        names_view(names@) == two(first@, second@),
{
    let mut names: Vec<&'static str> = Vec::new();
    names.push(first);
    names.push(second);
    assert(names_view(names@) =~= two(first@, second@));
    names
}

fn index_migration(
    id: &'static str,
    index: Index,
    table: Table,
    covered: Vec<&'static str>,
    unique: bool,
) -> (migration: Migration)
    ensures
        migration@ == index_version(id@, index, table, names_view(covered@), unique),
{
    Migration {
        id,
        up: Change::CreateIndex { index, table, covered, unique },
        down: Change::DropIndex { index, table, if_exists: true },
    }
}

fn dropping_migration(
    id: &'static str,
    index: Index,
    table: Table,
    covered: Vec<&'static str>,
) -> (migration: Migration)
    ensures
        migration@ == dropping_version(id@, index, table, names_view(covered@)),
{
    Migration {
        id,
        up: Change::DropIndex { index, table, if_exists: false },
        down: Change::CreateIndex { index, table, covered, unique: true },
    }
}

fn list(migrations: &mut Vec<Migration>, migration: Migration)
    ensures
        migrations_view(final(migrations)@) == migrations_view(old(migrations)@).push(migration@),
{
    migrations.push(migration);
    assert(migrations_view(migrations@) =~= migrations_view(old(migrations)@).push(migration@));
}

/// How many schema versions there are.
pub const VERSION_COUNT: usize = 30;

/// The schema version at a place, from 0.
pub open spec fn version(place: int) -> MigrationView {
    if place == 0 {
        table_version(
            "001_users"@,
            Table::Users,
            ColumnList::new()
                .text("user_id"@)
                .text("username_normalized"@)
                .text("username_display"@)
                .bigint("created_at_ms"@),
            "user_id"@,
        )
    } else if place == 1 {
        index_version(
            "002_users_username_unique"@,
            Index::UsersUsernameNormalized,
            Table::Users,
            one("username_normalized"@),
            true,
        )
    } else if place == 2 {
        table_version(
            "003_password_credentials"@,
            Table::PasswordCredentials,
            ColumnList::new()
                .text("user_id"@)
                .text("password_hash"@)
                .bigint("updated_at_ms"@),
            "user_id"@,
        )
    } else if place == 3 {
        table_version(
            "004_auth_sessions"@,
            Table::AuthSessions,
            ColumnList::new()
                .text("session_hash"@)
                .text("user_id"@)
                .bigint("expires_at_ms"@)
                .nullable_bigint("revoked_at_ms"@)
                .bigint("created_at_ms"@),
            "session_hash"@,
        )
    } else if place == 4 {
        table_version(
            "005_games"@,
            Table::Games,
            ColumnList::new()
                .text("game_id"@)
                .text("rules_id"@)
                .bigint("rules_version"@)
                .text("dictionary_id"@)
                .bigint("dictionary_version"@)
                .text("dictionary_checksum"@)
                .bigint("canonical_revision"@)
                .text("status"@)
                .bigint("created_at_ms"@)
                .bigint("updated_at_ms"@),
            "game_id"@,
        )
    } else if place == 5 {
        table_version(
            "006_game_players"@,
            Table::GamePlayers,
            ColumnList::new()
                .text("game_player_id"@)
                .text("game_id"@)
                .text("user_id"@)
                .bigint("seat"@),
            "game_player_id"@,
        )
    } else if place == 6 {
        index_version(
            "007_game_players_unique"@,
            Index::GamePlayersGameUser,
            Table::GamePlayers,
            two("game_id"@, "user_id"@),
            true,
        )
    } else if place == 7 {
        table_version(
            "008_challenges"@,
            Table::Challenges,
            ColumnList::new()
                .text("challenge_id"@)
                .text("challenger_user_id"@)
                .text("challenged_user_id"@)
                .text("status"@)
                .bigint("created_at_ms"@)
                .bigint("updated_at_ms"@),
            "challenge_id"@,
        )
    } else if place == 8 {
        table_version(
            "009_invitations"@,
            Table::Invitations,
            ColumnList::new()
                .text("invitation_id"@)
                .text("creator_user_id"@)
                .text("token_hash"@)
                .text("status"@)
                .bigint("expires_at_ms"@)
                .nullable_text("redeemed_by_user_id"@)
                .bigint("created_at_ms"@),
            "invitation_id"@,
        )
    } else if place == 9 {
        index_version(
            "010_invitations_token_unique"@,
            Index::InvitationsTokenHash,
            Table::Invitations,
            one("token_hash"@),
            true,
        )
    } else if place == 10 {
        table_version(
            "011_projection_checkpoints"@,
            Table::ProjectionCheckpoints,
            ColumnList::new()
                .text("projection_id"@)
                .text("game_id"@)
                .bigint("revision"@)
                .bigint("updated_at_ms"@),
            "projection_id"@,
        )
    } else if place == 11 {
        table_version(
            "012_game_summaries"@,
            Table::GameSummaries,
            ColumnList::new()
                .text("game_id"@)
                .text("status"@)
                .nullable_text("active_player_user_id"@)
                .bigint("canonical_revision"@)
                .nullable_bigint("last_score"@)
                .nullable_text("winner_user_id"@)
                .bigint("updated_at_ms"@),
            "game_id"@,
        )
    } else if place == 12 {
        table_version(
            "013_move_history"@,
            Table::MoveHistory,
            ColumnList::new()
                .text("move_id"@)
                .text("game_id"@)
                .bigint("revision"@)
                .nullable_text("player_user_id"@)
                .text("event_kind"@)
                .bigint("score_delta"@)
                .bigint("created_at_ms"@),
            "move_id"@,
        )
    } else if place == 13 {
        index_version(
            "014_move_history_revision_unique"@,
            Index::MoveHistoryGameRevision,
            Table::MoveHistory,
            two("game_id"@, "revision"@),
            true,
        )
    } else if place == 14 {
        table_version(
            "015_user_score_totals"@,
            Table::UserScoreTotals,
            ColumnList::new()
                .text("user_id"@)
                .bigint("completed_games"@)
                .bigint("wins"@)
                .bigint("ties"@)
                .bigint("total_score"@)
                .bigint("updated_at_ms"@),
            "user_id"@,
        )
    } else if place == 15 {
        table_version(
            "020_game_journal"@,
            Table::GameJournal,
            ColumnList::new()
                .text("event_id"@)
                .text("game_id"@)
                .bigint("revision"@)
                .text("command_id"@)
                .text("idempotency_key"@)
                .bigint("payload_version"@)
                .text("payload"@),
            "event_id"@,
        )
    } else if place == 16 {
        index_version(
            "021_game_journal_revision_unique"@,
            Index::GameJournalGameRevision,
            Table::GameJournal,
            two("game_id"@, "revision"@),
            true,
        )
    } else if place == 17 {
        index_version(
            "022_game_journal_command_unique"@,
            Index::GameJournalGameCommand,
            Table::GameJournal,
            two("game_id"@, "command_id"@),
            true,
        )
    } else if place == 18 {
        index_version(
            "023_game_journal_idempotency_unique"@,
            Index::GameJournalGameIdempotency,
            Table::GameJournal,
            two("game_id"@, "idempotency_key"@),
            true,
        )
    } else if place == 19 {
        table_version(
            "024_game_snapshots"@,
            Table::GameSnapshots,
            ColumnList::new()
                .text("snapshot_id"@)
                .text("game_id"@)
                .bigint("revision"@)
                .bigint("payload_version"@)
                .text("payload"@)
                .bigint("created_at_ms"@),
            "snapshot_id"@,
        )
    } else if place == 20 {
        dropping_version(
            "025_drop_journal_command_unique"@,
            Index::GameJournalGameCommand,
            Table::GameJournal,
            two("game_id"@, "command_id"@),
        )
    } else if place == 21 {
        dropping_version(
            "026_drop_journal_idempotency_unique"@,
            Index::GameJournalGameIdempotency,
            Table::GameJournal,
            two("game_id"@, "idempotency_key"@),
        )
    } else if place == 22 {
        table_version(
            "027_game_commands"@,
            Table::GameCommands,
            ColumnList::new()
                .text("game_command_id"@)
                .text("game_id"@)
                .text("command_id"@)
                .text("idempotency_key"@)
                .bigint("expected_revision"@)
                .bigint("resulting_revision"@),
            "game_command_id"@,
        )
    } else if place == 23 {
        index_version(
            "028_game_commands_command_unique"@,
            Index::GameCommandsGameCommand,
            Table::GameCommands,
            two("game_id"@, "command_id"@),
            true,
        )
    } else if place == 24 {
        index_version(
            "029_game_commands_idempotency_unique"@,
            Index::GameCommandsGameIdempotency,
            Table::GameCommands,
            two("game_id"@, "idempotency_key"@),
            true,
        )
    } else if place == 25 {
        table_version(
            "030_game_scores"@,
            Table::GameScores,
            ColumnList::new()
                .text("game_player_score_id"@)
                .text("game_id"@)
                .text("user_id"@)
                .bigint("score"@)
                .text("outcome"@)
                .bigint("updated_at_ms"@),
            "game_player_score_id"@,
        )
    } else if place == 26 {
        index_version(
            "031_game_scores_user"@,
            Index::GameScoresUser,
            Table::GameScores,
            one("user_id"@),
            false,
        )
    } else if place == 27 {
        table_version(
            "032_rack_preferences"@,
            Table::RackPreferences,
            ColumnList::new()
                .text("rack_preference_id"@)
                .text("game_id"@)
                .text("user_id"@)
                .text("tile_order"@)
                .bigint("updated_at_ms"@),
            "rack_preference_id"@,
        )
    } else if place == 28 {
        index_version(
            "033_rack_preferences_game_user_unique"@,
            Index::RackPreferencesGameUser,
            Table::RackPreferences,
            two("game_id"@, "user_id"@),
            true,
        )
    } else {
        table_version(
            "034_definition_cache"@,
            Table::DefinitionCache,
            ColumnList::new()
                .text("definition_cache_id"@)
                .text("provider"@)
                .bigint("provider_version"@)
                .text("language"@)
                .text("word"@)
                .text("status"@)
                .nullable_text("payload"@)
                .bigint("fetched_at_ms"@)
                .bigint("expires_at_ms"@),
            "definition_cache_id"@,
        )
    }
}

/// The schema versions from the first up to, and without, `count`.
pub open spec fn versions(count: nat) -> Seq<MigrationView> {
    Seq::new(count, |i: int| version(i))
}

/// Every schema version, in the order in which it is reached.
pub open spec fn schema() -> Seq<MigrationView> {
    versions(30)
}

fn list_up_to_6(migrations: &mut Vec<Migration>)
    requires
        migrations_view(old(migrations)@) == versions(0),
    ensures
        migrations_view(final(migrations)@) == versions(6),
{
    list(
        migrations,
        table_migration(
            "001_users",
            Table::Users,
            Columns::new()
                .text("user_id")
                .text("username_normalized")
                .text("username_display")
                .bigint("created_at_ms"),
            "user_id",
        ),
    );
    assert(migrations_view(migrations@) =~= versions(1));
    list(
        migrations,
        index_migration(
            "002_users_username_unique",
            Index::UsersUsernameNormalized,
            Table::Users,
            one_name("username_normalized"),
            true,
        ),
    );
    assert(migrations_view(migrations@) =~= versions(2));
    list(
        migrations,
        table_migration(
            "003_password_credentials",
            Table::PasswordCredentials,
            Columns::new()
                .text("user_id")
                .text("password_hash")
                .bigint("updated_at_ms"),
            "user_id",
        ),
    );
    assert(migrations_view(migrations@) =~= versions(3));
    list(
        migrations,
        table_migration(
            "004_auth_sessions",
            Table::AuthSessions,
            Columns::new()
                .text("session_hash")
                .text("user_id")
                .bigint("expires_at_ms")
                .nullable_bigint("revoked_at_ms")
                .bigint("created_at_ms"),
            "session_hash",
        ),
    );
    assert(migrations_view(migrations@) =~= versions(4));
    list(
        migrations,
        table_migration(
            "005_games",
            Table::Games,
            Columns::new()
                .text("game_id")
                .text("rules_id")
                .bigint("rules_version")
                .text("dictionary_id")
                .bigint("dictionary_version")
                .text("dictionary_checksum")
                .bigint("canonical_revision")
                .text("status")
                .bigint("created_at_ms")
                .bigint("updated_at_ms"),
            "game_id",
        ),
    );
    assert(migrations_view(migrations@) =~= versions(5));
    list(
        migrations,
        table_migration(
            "006_game_players",
            Table::GamePlayers,
            Columns::new()
                .text("game_player_id")
                .text("game_id")
                .text("user_id")
                .bigint("seat"),
            "game_player_id",
        ),
    );
    assert(migrations_view(migrations@) =~= versions(6));
}

fn list_up_to_12(migrations: &mut Vec<Migration>)
    requires
        migrations_view(old(migrations)@) == versions(6),
    ensures
        migrations_view(final(migrations)@) == versions(12),
{
    list(
        migrations,
        index_migration(
            "007_game_players_unique",
            Index::GamePlayersGameUser,
            Table::GamePlayers,
            two_names("game_id", "user_id"),
            true,
        ),
    );
    assert(migrations_view(migrations@) =~= versions(7));
    list(
        migrations,
        table_migration(
            "008_challenges",
            Table::Challenges,
            Columns::new()
                .text("challenge_id")
                .text("challenger_user_id")
                .text("challenged_user_id")
                .text("status")
                .bigint("created_at_ms")
                .bigint("updated_at_ms"),
            "challenge_id",
        ),
    );
    assert(migrations_view(migrations@) =~= versions(8));
    list(
        migrations,
        table_migration(
            "009_invitations",
            Table::Invitations,
            Columns::new()
                .text("invitation_id")
                .text("creator_user_id")
                .text("token_hash")
                .text("status")
                .bigint("expires_at_ms")
                .nullable_text("redeemed_by_user_id")
                .bigint("created_at_ms"),
            "invitation_id",
        ),
    );
    assert(migrations_view(migrations@) =~= versions(9));
    list(
        migrations,
        index_migration(
            "010_invitations_token_unique",
            Index::InvitationsTokenHash,
            Table::Invitations,
            one_name("token_hash"),
            true,
        ),
    );
    assert(migrations_view(migrations@) =~= versions(10));
    list(
        migrations,
        table_migration(
            "011_projection_checkpoints",
            Table::ProjectionCheckpoints,
            Columns::new()
                .text("projection_id")
                .text("game_id")
                .bigint("revision")
                .bigint("updated_at_ms"),
            "projection_id",
        ),
    );
    assert(migrations_view(migrations@) =~= versions(11));
    list(
        migrations,
        table_migration(
            "012_game_summaries",
            Table::GameSummaries,
            Columns::new()
                .text("game_id")
                .text("status")
                .nullable_text("active_player_user_id")
                .bigint("canonical_revision")
                .nullable_bigint("last_score")
                .nullable_text("winner_user_id")
                .bigint("updated_at_ms"),
            "game_id",
        ),
    );
    assert(migrations_view(migrations@) =~= versions(12));
}

fn list_up_to_18(migrations: &mut Vec<Migration>)
    requires
        migrations_view(old(migrations)@) == versions(12),
    ensures
        migrations_view(final(migrations)@) == versions(18),
{
    list(
        migrations,
        table_migration(
            "013_move_history",
            Table::MoveHistory,
            Columns::new()
                .text("move_id")
                .text("game_id")
                .bigint("revision")
                .nullable_text("player_user_id")
                .text("event_kind")
                .bigint("score_delta")
                .bigint("created_at_ms"),
            "move_id",
        ),
    );
    assert(migrations_view(migrations@) =~= versions(13));
    list(
        migrations,
        index_migration(
            "014_move_history_revision_unique",
            Index::MoveHistoryGameRevision,
            Table::MoveHistory,
            two_names("game_id", "revision"),
            true,
        ),
    );
    assert(migrations_view(migrations@) =~= versions(14));
    list(
        migrations,
        table_migration(
            "015_user_score_totals",
            Table::UserScoreTotals,
            Columns::new()
                .text("user_id")
                .bigint("completed_games")
                .bigint("wins")
                .bigint("ties")
                .bigint("total_score")
                .bigint("updated_at_ms"),
            "user_id",
        ),
    );
    assert(migrations_view(migrations@) =~= versions(15));
    list(
        migrations,
        table_migration(
            "020_game_journal",
            Table::GameJournal,
            Columns::new()
                .text("event_id")
                .text("game_id")
                .bigint("revision")
                .text("command_id")
                .text("idempotency_key")
                .bigint("payload_version")
                .text("payload"),
            "event_id",
        ),
    );
    assert(migrations_view(migrations@) =~= versions(16));
    list(
        migrations,
        index_migration(
            "021_game_journal_revision_unique",
            Index::GameJournalGameRevision,
            Table::GameJournal,
            two_names("game_id", "revision"),
            true,
        ),
    );
    assert(migrations_view(migrations@) =~= versions(17));
    list(
        migrations,
        index_migration(
            "022_game_journal_command_unique",
            Index::GameJournalGameCommand,
            Table::GameJournal,
            two_names("game_id", "command_id"),
            true,
        ),
    );
    assert(migrations_view(migrations@) =~= versions(18));
}

fn list_up_to_24(migrations: &mut Vec<Migration>)
    requires
        migrations_view(old(migrations)@) == versions(18),
    ensures
        migrations_view(final(migrations)@) == versions(24),
{
    list(
        migrations,
        index_migration(
            "023_game_journal_idempotency_unique",
            Index::GameJournalGameIdempotency,
            Table::GameJournal,
            two_names("game_id", "idempotency_key"),
            true,
        ),
    );
    assert(migrations_view(migrations@) =~= versions(19));
    list(
        migrations,
        table_migration(
            "024_game_snapshots",
            Table::GameSnapshots,
            Columns::new()
                .text("snapshot_id")
                .text("game_id")
                .bigint("revision")
                .bigint("payload_version")
                .text("payload")
                .bigint("created_at_ms"),
            "snapshot_id",
        ),
    );
    assert(migrations_view(migrations@) =~= versions(20));
    list(
        migrations,
        dropping_migration(
            "025_drop_journal_command_unique",
            Index::GameJournalGameCommand,
            Table::GameJournal,
            two_names("game_id", "command_id"),
        ),
    );
    assert(migrations_view(migrations@) =~= versions(21));
    list(
        migrations,
        dropping_migration(
            "026_drop_journal_idempotency_unique",
            Index::GameJournalGameIdempotency,
            Table::GameJournal,
            two_names("game_id", "idempotency_key"),
        ),
    );
    assert(migrations_view(migrations@) =~= versions(22));
    list(
        migrations,
        table_migration(
            "027_game_commands",
            Table::GameCommands,
            Columns::new()
                .text("game_command_id")
                .text("game_id")
                .text("command_id")
                .text("idempotency_key")
                .bigint("expected_revision")
                .bigint("resulting_revision"),
            "game_command_id",
        ),
    );
    assert(migrations_view(migrations@) =~= versions(23));
    list(
        migrations,
        index_migration(
            "028_game_commands_command_unique",
            Index::GameCommandsGameCommand,
            Table::GameCommands,
            two_names("game_id", "command_id"),
            true,
        ),
    );
    assert(migrations_view(migrations@) =~= versions(24));
}

fn list_up_to_30(migrations: &mut Vec<Migration>)
    requires
        migrations_view(old(migrations)@) == versions(24),
    ensures
        migrations_view(final(migrations)@) == versions(30),
{
    list(
        migrations,
        index_migration(
            "029_game_commands_idempotency_unique",
            Index::GameCommandsGameIdempotency,
            Table::GameCommands,
            two_names("game_id", "idempotency_key"),
            true,
        ),
    );
    assert(migrations_view(migrations@) =~= versions(25));
    list(
        migrations,
        table_migration(
            "030_game_scores",
            Table::GameScores,
            Columns::new()
                .text("game_player_score_id")
                .text("game_id")
                .text("user_id")
                .bigint("score")
                .text("outcome")
                .bigint("updated_at_ms"),
            "game_player_score_id",
        ),
    );
    assert(migrations_view(migrations@) =~= versions(26));
    list(
        migrations,
        index_migration(
            "031_game_scores_user",
            Index::GameScoresUser,
            Table::GameScores,
            one_name("user_id"),
            false,
        ),
    );
    assert(migrations_view(migrations@) =~= versions(27));
    list(
        migrations,
        table_migration(
            "032_rack_preferences",
            Table::RackPreferences,
            Columns::new()
                .text("rack_preference_id")
                .text("game_id")
                .text("user_id")
                .text("tile_order")
                .bigint("updated_at_ms"),
            "rack_preference_id",
        ),
    );
    assert(migrations_view(migrations@) =~= versions(28));
    list(
        migrations,
        index_migration(
            "033_rack_preferences_game_user_unique",
            Index::RackPreferencesGameUser,
            Table::RackPreferences,
            two_names("game_id", "user_id"),
            true,
        ),
    );
    assert(migrations_view(migrations@) =~= versions(29));
    list(
        migrations,
        table_migration(
            "034_definition_cache",
            Table::DefinitionCache,
            Columns::new()
                .text("definition_cache_id")
                .text("provider")
                .bigint("provider_version")
                .text("language")
                .text("word")
                .text("status")
                .nullable_text("payload")
                .bigint("fetched_at_ms")
                .bigint("expires_at_ms"),
            "definition_cache_id",
        ),
    );
    assert(migrations_view(migrations@) =~= versions(30));
}

/// The versioned application schema.
pub fn app_migrations() -> (migrations: Vec<Migration>)
    ensures
        migrations_view(migrations@) == schema(),
        migrations@.len() == VERSION_COUNT,
{
    let mut migrations: Vec<Migration> = Vec::new();
    assert(migrations_view(migrations@) =~= versions(0));
    list_up_to_6(&mut migrations);
    list_up_to_12(&mut migrations);
    list_up_to_18(&mut migrations);
    list_up_to_24(&mut migrations);
    list_up_to_30(&mut migrations);
    assert(migrations_view(migrations@).len() == 30);
    migrations
}

/// An index as the store holds it.
#[verifier::ext_equal]
pub struct IndexView {
    pub table: Table,
    pub covered: Seq<Seq<char>>,
    pub unique: bool,
}

/// What a store holds of the schema.
#[verifier::ext_equal]
pub struct Installed {
    pub tables: Map<Table, Seq<ColumnView>>,
    pub indexes: Map<Index, IndexView>,
}

/// Whether a table has a column of this name.
pub open spec fn has_column(columns: Seq<ColumnView>, name: Seq<char>) -> bool {
    exists|i: int| 0 <= i < columns.len() && (#[trigger] columns[i]).name == name
}

/// Whether a change fits a store: what it creates is new, what it drops is there, and what it names
/// exists.
pub open spec fn fits(change: ChangeView, installed: Installed) -> bool {
    match change {
        ChangeView::CreateTable { table, columns, primary_key } => !installed.tables.contains_key(
            table,
        ) && has_column(columns, primary_key),
        ChangeView::DropTable(table) => true,
        ChangeView::CreateIndex { index, table, covered, unique } => {
            &&& !installed.indexes.contains_key(index)
            &&& installed.tables.contains_key(table)
            &&& forall|i: int|
                0 <= i < covered.len() ==> has_column(
                    installed.tables[table],
                    #[trigger] covered[i],
                )
        },
        ChangeView::DropIndex { index, table, if_exists } => if_exists
            || installed.indexes.contains_key(index),
    }
}

/// What a store holds after a change.
pub open spec fn changed(installed: Installed, change: ChangeView) -> Installed {
    match change {
        ChangeView::CreateTable { table, columns, primary_key } => Installed {
            tables: installed.tables.insert(table, columns),
            ..installed
        },
        ChangeView::DropTable(table) => Installed {
            tables: installed.tables.remove(table),
            ..installed
        },
        ChangeView::CreateIndex { index, table, covered, unique } => Installed {
            indexes: installed.indexes.insert(index, IndexView { table, covered, unique }),
            ..installed
        },
        ChangeView::DropIndex { index, table, if_exists } => Installed {
            indexes: installed.indexes.remove(index),
            ..installed
        },
    }
}

/// What a store holds after the versions from `from` up to, and without, `to`.
pub open spec fn upgraded(installed: Installed, from: int, to: int) -> Installed
    decreases to - from,
{
    if from >= to {
        installed
    } else {
        changed(upgraded(installed, from, to - 1), version(to - 1).up)
    }
}

/// A store without any of the schema.
pub open spec fn blank_store() -> Installed {
    Installed { tables: Map::empty(), indexes: Map::empty() }
}

/// What a store at version `count` holds.
pub open spec fn installed_at(count: int) -> Installed {
    upgraded(blank_store(), 0, count)
}

/// A store at any retained version, upgraded through the rest, holds what a store that was made new
/// holds.
pub proof fn retained_versions_upgrade(retained: int, to: int)
    requires
        0 <= retained <= to <= VERSION_COUNT,
    ensures
        upgraded(installed_at(retained), retained, to) == installed_at(to),
    decreases to - retained,
{
    if retained < to {
        retained_versions_upgrade(retained, to - 1);
    }
}

/// The place of the version that creates a table.
pub open spec fn table_place(table: Table) -> int {
    match table {
        Table::Users => 0,
        Table::PasswordCredentials => 2,
        Table::AuthSessions => 3,
        Table::Games => 4,
        Table::GamePlayers => 5,
        Table::Challenges => 7,
        Table::Invitations => 8,
        Table::ProjectionCheckpoints => 10,
        Table::GameSummaries => 11,
        Table::MoveHistory => 12,
        Table::UserScoreTotals => 14,
        Table::GameJournal => 15,
        Table::GameSnapshots => 19,
        Table::GameCommands => 22,
        Table::GameScores => 25,
        Table::RackPreferences => 27,
        Table::DefinitionCache => 29,
    }
}

/// The place of the version that creates an index.
pub open spec fn index_place(index: Index) -> int {
    match index {
        Index::UsersUsernameNormalized => 1,
        Index::GamePlayersGameUser => 6,
        Index::InvitationsTokenHash => 9,
        Index::MoveHistoryGameRevision => 13,
        Index::GameJournalGameRevision => 16,
        Index::GameJournalGameCommand => 17,
        Index::GameJournalGameIdempotency => 18,
        Index::GameCommandsGameCommand => 23,
        Index::GameCommandsGameIdempotency => 24,
        Index::GameScoresUser => 26,
        Index::RackPreferencesGameUser => 28,
    }
}

/// The place of the version that drops an index, or the number of versions where none does.
pub open spec fn index_end(index: Index) -> int {
    match index {
        Index::GameJournalGameCommand => 20,
        Index::GameJournalGameIdempotency => 21,
        _ => VERSION_COUNT as int,
    }
}

/// The columns that a version's table gets.
pub open spec fn table_columns(table: Table) -> Seq<ColumnView> {
    match version(table_place(table)).up {
        ChangeView::CreateTable { columns, .. } => columns,
        _ => Seq::empty(),
    }
}

/// A table's place is that of the one version that creates it.
proof fn table_place_creates(table: Table)
    ensures
        0 <= table_place(table) < VERSION_COUNT,
        version(table_place(table)).up matches ChangeView::CreateTable { table: created, .. }
            && created == table,
{
}

/// An index's place is that of the one version that creates it.
proof fn index_place_creates(index: Index)
    ensures
        0 <= index_place(index) < index_end(index) <= VERSION_COUNT,
        version(index_place(index)).up matches ChangeView::CreateIndex { index: created, .. }
            && created == index,
        index_end(index) < VERSION_COUNT ==> (version(
            index_end(index),
        ).up matches ChangeView::DropIndex { index: dropped, .. } && dropped == index),
{
}

/// What a version changes has its place there.
proof fn version_has_its_place(place: int)
    requires
        0 <= place < VERSION_COUNT,
    ensures
        match version(place).up {
            ChangeView::CreateTable { table, .. } => table_place(table) == place,
            ChangeView::DropTable(_) => false,
            ChangeView::CreateIndex { index, .. } => index_place(index) == place,
            ChangeView::DropIndex { index, .. } => index_end(index) == place,
        },
{
}

/// A store at some version holds exactly the tables created so far, with their columns, and the
/// indexes created and not yet dropped.
pub proof fn installed_contents(count: int)
    requires
        0 <= count <= VERSION_COUNT,
    ensures
        forall|table: Table| #[trigger]
            installed_at(count).tables.contains_key(table) <==> table_place(table) < count,
        forall|table: Table| #[trigger]
            installed_at(count).tables.contains_key(table) ==> installed_at(count).tables[table]
                == table_columns(table),
        forall|index: Index| #[trigger]
            installed_at(count).indexes.contains_key(index) <==> index_place(index) < count
                <= index_end(index),
    decreases count,
{
    if count > 0 {
        let before = installed_at(count - 1);
        let after = installed_at(count);
        installed_contents(count - 1);
        version_has_its_place(count - 1);
        assert(after == changed(before, version(count - 1).up));
        assert forall|table: Table|
            (#[trigger] after.tables.contains_key(table) <==> table_place(table) < count) && (
            after.tables.contains_key(table) ==> after.tables[table] == table_columns(table)) by {
            table_place_creates(table);
            assert(before.tables.contains_key(table) <==> table_place(table) < count - 1);
        }
        assert forall|index: Index| #[trigger]
            after.indexes.contains_key(index) <==> index_place(index) < count <= index_end(
                index,
            ) by {
            index_place_creates(index);
            assert(before.indexes.contains_key(index) <==> index_place(index) < count - 1
                <= index_end(index));
        }
    } else {
        assert forall|table: Table| table_place(table) >= 0 by {
            table_place_creates(table);
        }
        assert forall|index: Index| index_place(index) >= 0 by {
            index_place_creates(index);
        }
    }
}

/// Every version fits a store at the version before it.
pub proof fn every_version_fits(place: int)
    requires
        0 <= place < VERSION_COUNT,
    ensures
        fits(version(place).up, installed_at(place)),
{
    let before = installed_at(place);
    installed_contents(place);
    version_has_its_place(place);
    version_columns_exist(place);
    match version(place).up {
        ChangeView::CreateTable { table, .. } => {
            assert(before.tables.contains_key(table) <==> table_place(table) < place);
        },
        ChangeView::CreateIndex { index, table, .. } => {
            assert(before.tables.contains_key(table) <==> table_place(table) < place);
            assert(before.indexes.contains_key(index) <==> index_place(index) < place
                <= index_end(index));
        },
        ChangeView::DropIndex { index, .. } => {
            index_place_creates(index);
            assert(before.indexes.contains_key(index) <==> index_place(index) < place
                <= index_end(index));
        },
        _ => {},
    }
}

/// The names that a version relies on: a table's key is one of its columns, and an index covers
/// columns of a table that an earlier version creates.
proof fn version_columns_exist(place: int)
    requires
        0 <= place < VERSION_COUNT,
    ensures
        match version(place).up {
            ChangeView::CreateTable { columns, primary_key, .. } => has_column(
                columns,
                primary_key,
            ),
            ChangeView::CreateIndex { table, covered, .. } => table_place(table) < place && forall|
                i: int,
            |
                0 <= i < covered.len() ==> has_column(table_columns(table), #[trigger] covered[i]),
            _ => true,
        },
{
    match version(place).up {
        ChangeView::CreateTable { columns, primary_key, .. } => {
            assert(columns[0].name == primary_key);
        },
        ChangeView::CreateIndex { table, covered, .. } => {
            let held = table_columns(table);
            if place == 1 {
                assert(held[1].name == covered[0]);
            }
            if place == 6 {
                assert(held[1].name == covered[0]);
            }
            if place == 6 {
                assert(held[2].name == covered[1]);
            }
            if place == 9 {
                assert(held[2].name == covered[0]);
            }
            if place == 13 {
                assert(held[1].name == covered[0]);
            }
            if place == 13 {
                assert(held[2].name == covered[1]);
            }
            if place == 16 {
                assert(held[1].name == covered[0]);
            }
            if place == 16 {
                assert(held[2].name == covered[1]);
            }
            if place == 17 {
                assert(held[1].name == covered[0]);
            }
            if place == 17 {
                assert(held[3].name == covered[1]);
            }
            if place == 18 {
                assert(held[1].name == covered[0]);
            }
            if place == 18 {
                assert(held[4].name == covered[1]);
            }
            if place == 23 {
                assert(held[1].name == covered[0]);
            }
            if place == 23 {
                assert(held[2].name == covered[1]);
            }
            if place == 24 {
                assert(held[1].name == covered[0]);
            }
            if place == 24 {
                assert(held[3].name == covered[1]);
            }
            if place == 26 {
                assert(held[2].name == covered[0]);
            }
            if place == 28 {
                assert(held[1].name == covered[0]);
            }
            if place == 28 {
                assert(held[2].name == covered[1]);
            }
        },
        _ => {},
    }
}

/// What an index that a version drops was created as.
proof fn dropped_indexes(place: int)
    requires
        0 <= place < VERSION_COUNT,
    ensures
        version(place).up matches ChangeView::DropIndex { index, .. } ==> (match version(
            place,
        ).down {
            ChangeView::CreateIndex { index: again, table, covered, unique } => again == index
                && installed_at(place).indexes.contains_key(index)
                && installed_at(place).indexes[index] == (IndexView { table, covered, unique }),
            _ => false,
        }),
{
    installed_contents(place);
    if let ChangeView::DropIndex { index, .. } = version(place).up {
        created_index_stays(index, place);
    }
}

/// An index stays as it was created until a version drops it.
proof fn created_index_stays(index: Index, count: int)
    requires
        index_place(index) < count <= index_end(index),
    ensures
        installed_at(count).indexes.contains_key(index),
        version(index_place(index)).up matches ChangeView::CreateIndex {
            table,
            covered,
            unique,
            ..
        } && installed_at(count).indexes[index] == (IndexView { table, covered, unique }),
    decreases count,
{
    if count > index_place(index) + 1 {
        created_index_stays(index, count - 1);
    }
}

/// Leaving a version restores what the store held before it.
pub proof fn leaving_a_version_restores(place: int)
    requires
        0 <= place < VERSION_COUNT,
    ensures
        changed(changed(installed_at(place), version(place).up), version(place).down)
            == installed_at(place),
{
    installed_contents(place);
    let before = installed_at(place);
    let after = changed(changed(before, version(place).up), version(place).down);
    dropped_indexes(place);
    assert(after.tables =~= before.tables);
    assert(after.indexes =~= before.indexes);
}

/// A store that has every version holds every table.
pub proof fn current_schema_has_every_table(table: Table)
    ensures
        installed_at(VERSION_COUNT as int).tables.contains_key(table),
{
    installed_contents(VERSION_COUNT as int);
}

} // verus!
