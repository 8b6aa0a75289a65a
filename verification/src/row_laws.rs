//! What the rows hold that games, commands, invitations, links and preferences are written in.
use crate::attempt_laws;
use crate::challenges::{self, CreationView};
use crate::definitions;
use crate::external_identities::{self, IdentityView};
use crate::game::{GameId, PlayerId};
use crate::ids;
use crate::invitations;
use crate::journal::{self, CommandView};
use crate::model;
use crate::move_plans;
use crate::projections;
use crate::rack_preferences;
use crate::store::{Datum, Relation, Verb};
use vstd::prelude::*;

verus! {

/// A new game stands under its rules and the pinned word list, active at its first revision, with
/// the
/// visibility that was asked for.
pub proof fn game_rows_hold(creation: CreationView, game_id: GameId, now_ms: i64)
    ensures
        ({
            let op = challenges::insert_game_op(creation, game_id, now_ms);
            let row = model::assigned(Map::empty(), op.values);
            &&& op.verb == Verb::Insert
            &&& op.table == "games"@
            &&& model::datum_in(row, "game_id"@) == Datum::Text(ids::id_text_of(game_id))
            &&& model::datum_in(row, "rules_id"@) == Datum::Text(creation.rules.reference.id@)
            &&& model::datum_in(row, "rules_version"@) == Datum::Integer(
                creation.rules.reference.version as int,
            )
            &&& model::datum_in(row, "dictionary_id"@) == Datum::Text("enable1-en"@)
            &&& model::datum_in(row, "dictionary_version"@) == Datum::Integer(1)
            &&& model::datum_in(row, "dictionary_checksum"@) == Datum::Text(
                "sha256:3f16130220645692ed49c7134e24a18504c2ca55b3c012f7290e3e77c63b1a89"@,
            )
            &&& model::datum_in(row, "canonical_revision"@) == Datum::Integer(1)
            &&& model::datum_in(row, "status"@) == Datum::Text("ACTIVE"@)
            &&& model::datum_in(row, "show_remaining_tile_count"@) == Datum::Integer(
                if creation.visibility.show_remaining_tile_count { 1 } else { 0 },
            )
            &&& model::datum_in(row, "show_remaining_tile_faces"@) == Datum::Integer(
                if creation.visibility.show_remaining_tile_faces { 1 } else { 0 },
            )
            &&& model::datum_in(row, "created_at_ms"@) == Datum::Integer(now_ms as int)
            &&& model::datum_in(row, "updated_at_ms"@) == Datum::Integer(now_ms as int)
        }),
{
    let op = challenges::insert_game_op(creation, game_id, now_ms);
    let values = op.values;
    assert(values.len() == 12);
    reveal_strlit("game_id");
    reveal_strlit("rules_id");
    reveal_strlit("rules_version");
    reveal_strlit("dictionary_id");
    reveal_strlit("dictionary_version");
    reveal_strlit("dictionary_checksum");
    reveal_strlit("canonical_revision");
    reveal_strlit("status");
    reveal_strlit("show_remaining_tile_count");
    reveal_strlit("show_remaining_tile_faces");
    reveal_strlit("created_at_ms");
    reveal_strlit("updated_at_ms");
    assert("game_id"@.len() == 7);
    assert("rules_id"@.len() == 8);
    assert("rules_version"@.len() == 13 && "rules_version"@[0] == 'r');
    assert("dictionary_id"@.len() == 13 && "dictionary_id"@[0] == 'd');
    assert("dictionary_version"@.len() == 18 && "dictionary_version"@[0] == 'd');
    assert("dictionary_checksum"@.len() == 19);
    assert("canonical_revision"@.len() == 18 && "canonical_revision"@[0] == 'c');
    assert("status"@.len() == 6);
    assert("show_remaining_tile_count"@.len() == 25 && "show_remaining_tile_count"@[20] == 'c');
    assert("show_remaining_tile_faces"@.len() == 25 && "show_remaining_tile_faces"@[20] == 'f');
    assert("created_at_ms"@.len() == 13 && "created_at_ms"@[0] == 'c');
    assert("updated_at_ms"@.len() == 13 && "updated_at_ms"@[0] == 'u');
    assert(values[0].0 == "game_id"@);
    assert(values[1].0 == "rules_id"@);
    assert(values[2].0 == "rules_version"@);
    assert(values[3].0 == "dictionary_id"@);
    assert(values[4].0 == "dictionary_version"@);
    assert(values[5].0 == "dictionary_checksum"@);
    assert(values[6].0 == "canonical_revision"@);
    assert(values[7].0 == "status"@);
    assert(values[8].0 == "show_remaining_tile_count"@);
    assert(values[9].0 == "show_remaining_tile_faces"@);
    assert(values[10].0 == "created_at_ms"@);
    assert(values[11].0 == "updated_at_ms"@);
    model::inserted_values_hold(values);
}

/// A seat of a game joins a player and a user.
pub proof fn seat_rows_hold(
    game_id: GameId,
    player: PlayerId,
    user: Seq<char>,
    seat: int,
)
    ensures
        ({
            let op = challenges::insert_player_op(game_id, player, user, seat);
            let row = model::assigned(Map::empty(), op.values);
            &&& op.verb == Verb::Insert
            &&& op.table == "game_players"@
            &&& model::datum_in(row, "game_player_id"@) == Datum::Text(ids::id_text_of(player))
            &&& model::datum_in(row, "game_id"@) == Datum::Text(ids::id_text_of(game_id))
            &&& model::datum_in(row, "user_id"@) == Datum::Text(user)
            &&& model::datum_in(row, "seat"@) == Datum::Integer(seat)
        }),
{
    let op = challenges::insert_player_op(game_id, player, user, seat);
    let values = op.values;
    assert(values.len() == 4);
    reveal_strlit("game_player_id");
    reveal_strlit("game_id");
    reveal_strlit("user_id");
    reveal_strlit("seat");
    assert("game_player_id"@.len() == 14);
    assert("game_id"@.len() == 7 && "game_id"@[0] == 'g');
    assert("user_id"@.len() == 7 && "user_id"@[0] == 'u');
    assert("seat"@.len() == 4);
    assert(values[0].0 == "game_player_id"@);
    assert(values[1].0 == "game_id"@);
    assert(values[2].0 == "user_id"@);
    assert(values[3].0 == "seat"@);
    model::inserted_values_hold(values);
}

/// The start of a game is its first event.
pub proof fn start_rows_hold(game_id: GameId, key: Seq<char>, payload: Seq<char>)
    ensures
        ({
            let op = challenges::insert_start_op(game_id, key, payload);
            let row = model::assigned(Map::empty(), op.values);
            &&& op.verb == Verb::Insert
            &&& op.table == "game_journal"@
            &&& model::datum_in(row, "event_id"@) == Datum::Text(
                ids::id_text_of(game_id) + ":"@ + "1"@,
            )
            &&& model::datum_in(row, "game_id"@) == Datum::Text(ids::id_text_of(game_id))
            &&& model::datum_in(row, "revision"@) == Datum::Integer(1)
            &&& model::datum_in(row, "command_id"@) == Datum::Text(key)
            &&& model::datum_in(row, "idempotency_key"@) == Datum::Text(key)
            &&& model::datum_in(row, "payload_version"@) == Datum::Integer(3)
            &&& model::datum_in(row, "payload"@) == Datum::Text(payload)
        }),
{
    let op = challenges::insert_start_op(game_id, key, payload);
    let values = op.values;
    assert(values.len() == 7);
    reveal_strlit("event_id");
    reveal_strlit("game_id");
    reveal_strlit("revision");
    reveal_strlit("command_id");
    reveal_strlit("idempotency_key");
    reveal_strlit("payload_version");
    reveal_strlit("payload");
    assert("event_id"@.len() == 8 && "event_id"@[0] == 'e');
    assert("game_id"@.len() == 7 && "game_id"@[0] == 'g');
    assert("revision"@.len() == 8 && "revision"@[0] == 'r');
    assert("command_id"@.len() == 10);
    assert("idempotency_key"@.len() == 15 && "idempotency_key"@[0] == 'i');
    assert("payload_version"@.len() == 15 && "payload_version"@[0] == 'p');
    assert("payload"@.len() == 7 && "payload"@[0] == 'p');
    assert(values[0].0 == "event_id"@);
    assert(values[1].0 == "game_id"@);
    assert(values[2].0 == "revision"@);
    assert(values[3].0 == "command_id"@);
    assert(values[4].0 == "idempotency_key"@);
    assert(values[5].0 == "payload_version"@);
    assert(values[6].0 == "payload"@);
    model::inserted_values_hold(values);
}

/// The command that starts a game leads from nothing to the first revision.
pub proof fn start_command_rows_hold(game_id: GameId, key: Seq<char>)
    ensures
        ({
            let op = challenges::insert_start_command_op(game_id, key);
            let row = model::assigned(Map::empty(), op.values);
            &&& op.verb == Verb::Insert
            &&& op.table == "game_commands"@
            &&& model::datum_in(row, "game_id"@) == Datum::Text(ids::id_text_of(game_id))
            &&& model::datum_in(row, "command_id"@) == Datum::Text(key)
            &&& model::datum_in(row, "idempotency_key"@) == Datum::Text(key)
            &&& model::datum_in(row, "expected_revision"@) == Datum::Integer(0)
            &&& model::datum_in(row, "resulting_revision"@) == Datum::Integer(1)
        }),
{
    let op = challenges::insert_start_command_op(game_id, key);
    let values = op.values;
    assert(values.len() == 6);
    reveal_strlit("game_command_id");
    reveal_strlit("game_id");
    reveal_strlit("command_id");
    reveal_strlit("idempotency_key");
    reveal_strlit("expected_revision");
    reveal_strlit("resulting_revision");
    assert("game_command_id"@.len() == 15 && "game_command_id"@[0] == 'g');
    assert("game_id"@.len() == 7);
    assert("command_id"@.len() == 10);
    assert("idempotency_key"@.len() == 15 && "idempotency_key"@[0] == 'i');
    assert("expected_revision"@.len() == 17);
    assert("resulting_revision"@.len() == 18);
    assert(values[0].0 == "game_command_id"@);
    assert(values[1].0 == "game_id"@);
    assert(values[2].0 == "command_id"@);
    assert(values[3].0 == "idempotency_key"@);
    assert(values[4].0 == "expected_revision"@);
    assert(values[5].0 == "resulting_revision"@);
    model::inserted_values_hold(values);
}

/// An event is written at its revision, under its command and retry key.
pub proof fn event_rows_hold(command: CommandView, revision: u64, payload: Seq<char>)
    ensures
        ({
            let op = journal::insert_event_op(command, revision, payload);
            let row = model::assigned(Map::empty(), op.values);
            &&& op.verb == Verb::Insert
            &&& op.table == "game_journal"@
            &&& model::datum_in(row, "game_id"@) == Datum::Text(ids::id_text_of(command.game_id))
            &&& model::datum_in(row, "revision"@) == Datum::Integer(revision as int)
            &&& model::datum_in(row, "command_id"@) == Datum::Text(command.command_id)
            &&& model::datum_in(row, "idempotency_key"@) == Datum::Text(command.idempotency_key)
            &&& model::datum_in(row, "payload_version"@) == Datum::Integer(3)
            &&& model::datum_in(row, "payload"@) == Datum::Text(payload)
        }),
{
    let op = journal::insert_event_op(command, revision, payload);
    let values = op.values;
    assert(values.len() == 7);
    reveal_strlit("event_id");
    reveal_strlit("game_id");
    reveal_strlit("revision");
    reveal_strlit("command_id");
    reveal_strlit("idempotency_key");
    reveal_strlit("payload_version");
    reveal_strlit("payload");
    assert("event_id"@.len() == 8 && "event_id"@[0] == 'e');
    assert("game_id"@.len() == 7 && "game_id"@[0] == 'g');
    assert("revision"@.len() == 8 && "revision"@[0] == 'r');
    assert("command_id"@.len() == 10);
    assert("idempotency_key"@.len() == 15 && "idempotency_key"@[0] == 'i');
    assert("payload_version"@.len() == 15 && "payload_version"@[0] == 'p');
    assert("payload"@.len() == 7 && "payload"@[0] == 'p');
    assert(values[0].0 == "event_id"@);
    assert(values[1].0 == "game_id"@);
    assert(values[2].0 == "revision"@);
    assert(values[3].0 == "command_id"@);
    assert(values[4].0 == "idempotency_key"@);
    assert(values[5].0 == "payload_version"@);
    assert(values[6].0 == "payload"@);
    model::inserted_values_hold(values);
}

/// A command is written with the revision that it was made against and the one that it led to.
pub proof fn command_rows_hold(command: CommandView, resulting: u64)
    ensures
        ({
            let op = journal::insert_command_op(command, resulting);
            let row = model::assigned(Map::empty(), op.values);
            &&& op.verb == Verb::Insert
            &&& op.table == "game_commands"@
            &&& model::datum_in(row, "game_id"@) == Datum::Text(ids::id_text_of(command.game_id))
            &&& model::datum_in(row, "command_id"@) == Datum::Text(command.command_id)
            &&& model::datum_in(row, "idempotency_key"@) == Datum::Text(command.idempotency_key)
            &&& model::datum_in(row, "expected_revision"@) == Datum::Integer(
                command.expected_revision as int,
            )
            &&& model::datum_in(row, "resulting_revision"@) == Datum::Integer(resulting as int)
        }),
{
    let op = journal::insert_command_op(command, resulting);
    let values = op.values;
    assert(values.len() == 6);
    reveal_strlit("game_command_id");
    reveal_strlit("game_id");
    reveal_strlit("command_id");
    reveal_strlit("idempotency_key");
    reveal_strlit("expected_revision");
    reveal_strlit("resulting_revision");
    assert("game_command_id"@.len() == 15 && "game_command_id"@[0] == 'g');
    assert("game_id"@.len() == 7);
    assert("command_id"@.len() == 10);
    assert("idempotency_key"@.len() == 15 && "idempotency_key"@[0] == 'i');
    assert("expected_revision"@.len() == 17);
    assert("resulting_revision"@.len() == 18);
    assert(values[0].0 == "game_command_id"@);
    assert(values[1].0 == "game_id"@);
    assert(values[2].0 == "command_id"@);
    assert(values[3].0 == "idempotency_key"@);
    assert(values[4].0 == "expected_revision"@);
    assert(values[5].0 == "resulting_revision"@);
    model::inserted_values_hold(values);
}

/// A snapshot is written at its revision.
pub proof fn snapshot_rows_hold(
    game_id: GameId,
    revision: u64,
    payload: Seq<char>,
    created_at_ms: i64,
)
    ensures
        ({
            let op = journal::insert_snapshot_op(game_id, revision, payload, created_at_ms);
            let row = model::assigned(Map::empty(), op.values);
            &&& op.verb == Verb::Insert
            &&& op.table == "game_snapshots"@
            &&& model::datum_in(row, "game_id"@) == Datum::Text(ids::id_text_of(game_id))
            &&& model::datum_in(row, "revision"@) == Datum::Integer(revision as int)
            &&& model::datum_in(row, "payload_version"@) == Datum::Integer(3)
            &&& model::datum_in(row, "payload"@) == Datum::Text(payload)
            &&& model::datum_in(row, "created_at_ms"@) == Datum::Integer(created_at_ms as int)
        }),
{
    let op = journal::insert_snapshot_op(game_id, revision, payload, created_at_ms);
    let values = op.values;
    assert(values.len() == 6);
    reveal_strlit("snapshot_id");
    reveal_strlit("game_id");
    reveal_strlit("revision");
    reveal_strlit("payload_version");
    reveal_strlit("payload");
    reveal_strlit("created_at_ms");
    assert("snapshot_id"@.len() == 11);
    assert("game_id"@.len() == 7 && "game_id"@[0] == 'g');
    assert("revision"@.len() == 8);
    assert("payload_version"@.len() == 15);
    assert("payload"@.len() == 7 && "payload"@[0] == 'p');
    assert("created_at_ms"@.len() == 13);
    assert(values[0].0 == "snapshot_id"@);
    assert(values[1].0 == "game_id"@);
    assert(values[2].0 == "revision"@);
    assert(values[3].0 == "payload_version"@);
    assert(values[4].0 == "payload"@);
    assert(values[5].0 == "created_at_ms"@);
    model::inserted_values_hold(values);
}

/// An invitation is active, nobody's yet, until it expires.
pub proof fn invitation_rows_hold(
    id: Seq<char>,
    creator: Seq<char>,
    hash: Seq<char>,
    expires_ms: i64,
    now_ms: i64,
)
    ensures
        ({
            let op = invitations::insert_invitation_op(id, creator, hash, expires_ms, now_ms);
            let row = model::assigned(Map::empty(), op.values);
            &&& op.verb == Verb::Insert
            &&& op.table == "invitations"@
            &&& model::datum_in(row, "invitation_id"@) == Datum::Text(id)
            &&& model::datum_in(row, "creator_user_id"@) == Datum::Text(creator)
            &&& model::datum_in(row, "token_hash"@) == Datum::Text(hash)
            &&& model::datum_in(row, "status"@) == Datum::Text("ACTIVE"@)
            &&& model::datum_in(row, "expires_at_ms"@) == Datum::Integer(expires_ms as int)
            &&& model::datum_in(row, "redeemed_by_user_id"@) == Datum::Null
            &&& model::datum_in(row, "created_at_ms"@) == Datum::Integer(now_ms as int)
        }),
{
    let op = invitations::insert_invitation_op(id, creator, hash, expires_ms, now_ms);
    let values = op.values;
    assert(values.len() == 7);
    reveal_strlit("invitation_id");
    reveal_strlit("creator_user_id");
    reveal_strlit("token_hash");
    reveal_strlit("status");
    reveal_strlit("expires_at_ms");
    reveal_strlit("redeemed_by_user_id");
    reveal_strlit("created_at_ms");
    assert("invitation_id"@.len() == 13 && "invitation_id"@[0] == 'i');
    assert("creator_user_id"@.len() == 15);
    assert("token_hash"@.len() == 10);
    assert("status"@.len() == 6);
    assert("expires_at_ms"@.len() == 13 && "expires_at_ms"@[0] == 'e');
    assert("redeemed_by_user_id"@.len() == 19);
    assert("created_at_ms"@.len() == 13 && "created_at_ms"@[0] == 'c');
    assert(values[0].0 == "invitation_id"@);
    assert(values[1].0 == "creator_user_id"@);
    assert(values[2].0 == "token_hash"@);
    assert(values[3].0 == "status"@);
    assert(values[4].0 == "expires_at_ms"@);
    assert(values[5].0 == "redeemed_by_user_id"@);
    assert(values[6].0 == "created_at_ms"@);
    model::inserted_values_hold(values);
}

/// A link joins an identity and a user, with what the provider says of the identity.
pub proof fn identity_rows_hold(
    id: Seq<char>,
    identity: IdentityView,
    user_id: Seq<char>,
    now_ms: i64,
)
    ensures
        ({
            let op = external_identities::insert_identity_op(id, identity, user_id, now_ms);
            let row = model::assigned(Map::empty(), op.values);
            &&& op.verb == Verb::Insert
            &&& op.table == "external_identities"@
            &&& model::datum_in(row, "external_identity_id"@) == Datum::Text(id)
            &&& model::datum_in(row, "provider"@) == Datum::Text(identity.provider)
            &&& model::datum_in(row, "issuer"@) == Datum::Text(identity.issuer)
            &&& model::datum_in(row, "subject"@) == Datum::Text(identity.subject)
            &&& model::datum_in(row, "user_id"@) == Datum::Text(user_id)
            &&& model::datum_in(row, "provider_display_name"@) == Datum::Text(identity.display_name)
            &&& model::datum_in(row, "provider_picture_url"@) == attempt_laws::optional(
                identity.picture_url,
            )
            &&& model::datum_in(row, "created_at_ms"@) == Datum::Integer(now_ms as int)
            &&& model::datum_in(row, "last_authenticated_at_ms"@) == Datum::Integer(now_ms as int)
        }),
{
    let op = external_identities::insert_identity_op(id, identity, user_id, now_ms);
    let values = op.values;
    assert(values.len() == 9);
    reveal_strlit("external_identity_id");
    reveal_strlit("provider");
    reveal_strlit("issuer");
    reveal_strlit("subject");
    reveal_strlit("user_id");
    reveal_strlit("provider_display_name");
    reveal_strlit("provider_picture_url");
    reveal_strlit("created_at_ms");
    reveal_strlit("last_authenticated_at_ms");
    assert("external_identity_id"@.len() == 20 && "external_identity_id"@[0] == 'e');
    assert("provider"@.len() == 8);
    assert("issuer"@.len() == 6);
    assert("subject"@.len() == 7 && "subject"@[0] == 's');
    assert("user_id"@.len() == 7 && "user_id"@[0] == 'u');
    assert("provider_display_name"@.len() == 21);
    assert("provider_picture_url"@.len() == 20 && "provider_picture_url"@[0] == 'p');
    assert("created_at_ms"@.len() == 13);
    assert("last_authenticated_at_ms"@.len() == 24);
    assert(values[0].0 == "external_identity_id"@);
    assert(values[1].0 == "provider"@);
    assert(values[2].0 == "issuer"@);
    assert(values[3].0 == "subject"@);
    assert(values[4].0 == "user_id"@);
    assert(values[5].0 == "provider_display_name"@);
    assert(values[6].0 == "provider_picture_url"@);
    assert(values[7].0 == "created_at_ms"@);
    assert(values[8].0 == "last_authenticated_at_ms"@);
    model::inserted_values_hold(values);
}

/// A definition is kept for its word until it expires.
pub proof fn definition_rows_hold(
    word: Seq<char>,
    status: Seq<char>,
    payload: Option<Seq<char>>,
    now_ms: i64,
    ttl_ms: i64,
)
    requires
        0 <= ttl_ms,
    ensures
        ({
            let op = definitions::cache_op(word, status, payload, now_ms, ttl_ms);
            let row = model::assigned(Map::empty(), op.values);
            &&& op.verb == Verb::Upsert
            &&& op.table == "definition_cache"@
            &&& model::datum_in(row, "provider"@) == Datum::Text("free-dictionary-api"@)
            &&& model::datum_in(row, "provider_version"@) == Datum::Integer(1)
            &&& model::datum_in(row, "language"@) == Datum::Text("en"@)
            &&& model::datum_in(row, "word"@) == Datum::Text(word)
            &&& model::datum_in(row, "status"@) == Datum::Text(status)
            &&& model::datum_in(row, "fetched_at_ms"@) == Datum::Integer(now_ms as int)
            &&& model::datum_in(row, "expires_at_ms"@) == Datum::Integer(
                if now_ms + ttl_ms > i64::MAX { i64::MAX as int } else { now_ms + ttl_ms },
            )
            &&& model::datum_in(row, "payload"@) == attempt_laws::optional(payload)
            &&& op.filters.len() == 1 && op.filters[0].0 == "definition_cache_id"@
                && op.filters[0].1 == Relation::Equal
            &&& model::datum_in(row, "definition_cache_id"@) == op.filters[0].2
        }),
{
    let op = definitions::cache_op(word, status, payload, now_ms, ttl_ms);
    let values = op.values;
    assert(values.len() == 9);
    reveal_strlit("definition_cache_id");
    reveal_strlit("provider");
    reveal_strlit("provider_version");
    reveal_strlit("language");
    reveal_strlit("word");
    reveal_strlit("status");
    reveal_strlit("fetched_at_ms");
    reveal_strlit("expires_at_ms");
    reveal_strlit("payload");
    assert("definition_cache_id"@.len() == 19);
    assert("provider"@.len() == 8 && "provider"@[0] == 'p');
    assert("provider_version"@.len() == 16);
    assert("language"@.len() == 8 && "language"@[0] == 'l');
    assert("word"@.len() == 4);
    assert("status"@.len() == 6);
    assert("fetched_at_ms"@.len() == 13 && "fetched_at_ms"@[0] == 'f');
    assert("expires_at_ms"@.len() == 13 && "expires_at_ms"@[0] == 'e');
    assert("payload"@.len() == 7);
    assert(values[0].0 == "definition_cache_id"@);
    assert(values[1].0 == "provider"@);
    assert(values[2].0 == "provider_version"@);
    assert(values[3].0 == "language"@);
    assert(values[4].0 == "word"@);
    assert(values[5].0 == "status"@);
    assert(values[6].0 == "fetched_at_ms"@);
    assert(values[7].0 == "expires_at_ms"@);
    assert(values[8].0 == "payload"@);
    model::inserted_values_hold(values);
}

/// A checkpoint keeps the revision up to which a game is projected.
pub proof fn checkpoint_rows_hold(game: Seq<char>, revision: u64, updated_at_ms: i64)
    ensures
        ({
            let op = projections::checkpoint_op(game, revision, updated_at_ms);
            let row = model::assigned(Map::empty(), op.values);
            &&& op.verb == Verb::Upsert
            &&& op.table == "projection_checkpoints"@
            &&& model::datum_in(row, "game_id"@) == Datum::Text(game)
            &&& model::datum_in(row, "revision"@) == Datum::Integer(revision as int)
            &&& model::datum_in(row, "updated_at_ms"@) == Datum::Integer(updated_at_ms as int)
            &&& op.filters.len() == 1 && op.filters[0].0 == "projection_id"@
                && op.filters[0].1 == Relation::Equal
            &&& model::datum_in(row, "projection_id"@) == op.filters[0].2
        }),
{
    let op = projections::checkpoint_op(game, revision, updated_at_ms);
    let values = op.values;
    assert(values.len() == 4);
    reveal_strlit("projection_id");
    reveal_strlit("game_id");
    reveal_strlit("revision");
    reveal_strlit("updated_at_ms");
    assert("projection_id"@.len() == 13 && "projection_id"@[0] == 'p');
    assert("game_id"@.len() == 7);
    assert("revision"@.len() == 8);
    assert("updated_at_ms"@.len() == 13 && "updated_at_ms"@[0] == 'u');
    assert(values[0].0 == "projection_id"@);
    assert(values[1].0 == "game_id"@);
    assert(values[2].0 == "revision"@);
    assert(values[3].0 == "updated_at_ms"@);
    model::inserted_values_hold(values);
}

/// A plan is kept for a member of a game with the revision of the board that it was made on.
pub proof fn plan_rows_hold(
    game_id: GameId,
    user_id: Seq<char>,
    payload: Seq<char>,
    board_revision: u64,
    updated_at_ms: i64,
)
    ensures
        ({
            let op = move_plans::upsert_plan_op(
                game_id,
                user_id,
                payload,
                board_revision,
                updated_at_ms,
            );
            let row = model::assigned(Map::empty(), op.values);
            &&& op.verb == Verb::Upsert
            &&& op.table == "move_plans"@
            &&& model::datum_in(row, "game_id"@) == Datum::Text(ids::id_text_of(game_id))
            &&& model::datum_in(row, "user_id"@) == Datum::Text(user_id)
            &&& model::datum_in(row, "payload"@) == Datum::Text(payload)
            &&& model::datum_in(row, "board_revision"@) == Datum::Integer(board_revision as int)
            &&& model::datum_in(row, "updated_at_ms"@) == Datum::Integer(updated_at_ms as int)
            &&& op.filters.len() == 1 && op.filters[0].0 == "move_plan_id"@
                && op.filters[0].1 == Relation::Equal
            &&& model::datum_in(row, "move_plan_id"@) == op.filters[0].2
        }),
{
    let op = move_plans::upsert_plan_op(game_id, user_id, payload, board_revision, updated_at_ms);
    let values = op.values;
    assert(values.len() == 6);
    reveal_strlit("move_plan_id");
    reveal_strlit("game_id");
    reveal_strlit("user_id");
    reveal_strlit("payload");
    reveal_strlit("board_revision");
    reveal_strlit("updated_at_ms");
    assert("move_plan_id"@.len() == 12);
    assert("game_id"@.len() == 7 && "game_id"@[0] == 'g');
    assert("user_id"@.len() == 7 && "user_id"@[0] == 'u');
    assert("payload"@.len() == 7 && "payload"@[0] == 'p');
    assert("board_revision"@.len() == 14);
    assert("updated_at_ms"@.len() == 13);
    assert(values[0].0 == "move_plan_id"@);
    assert(values[1].0 == "game_id"@);
    assert(values[2].0 == "user_id"@);
    assert(values[3].0 == "payload"@);
    assert(values[4].0 == "board_revision"@);
    assert(values[5].0 == "updated_at_ms"@);
    model::inserted_values_hold(values);
}

/// A rack order is kept for a member of a game.
pub proof fn rack_rows_hold(
    game_id: GameId,
    user_id: Seq<char>,
    order: Seq<u16>,
    updated_at_ms: i64,
)
    ensures
        ({
            let op = rack_preferences::upsert_preference_op(game_id, user_id, order, updated_at_ms);
            let row = model::assigned(Map::empty(), op.values);
            &&& op.verb == Verb::Upsert
            &&& op.table == "rack_preferences"@
            &&& model::datum_in(row, "game_id"@) == Datum::Text(ids::id_text_of(game_id))
            &&& model::datum_in(row, "user_id"@) == Datum::Text(user_id)
            &&& model::datum_in(row, "tile_order"@) == Datum::Text(
                rack_preferences::order_text_of(order),
            )
            &&& model::datum_in(row, "updated_at_ms"@) == Datum::Integer(updated_at_ms as int)
            &&& op.filters.len() == 1 && op.filters[0].0 == "rack_preference_id"@
                && op.filters[0].1 == Relation::Equal
            &&& model::datum_in(row, "rack_preference_id"@) == op.filters[0].2
        }),
{
    let op = rack_preferences::upsert_preference_op(game_id, user_id, order, updated_at_ms);
    let values = op.values;
    assert(values.len() == 5);
    reveal_strlit("rack_preference_id");
    reveal_strlit("game_id");
    reveal_strlit("user_id");
    reveal_strlit("tile_order");
    reveal_strlit("updated_at_ms");
    assert("rack_preference_id"@.len() == 18);
    assert("game_id"@.len() == 7 && "game_id"@[0] == 'g');
    assert("user_id"@.len() == 7 && "user_id"@[0] == 'u');
    assert("tile_order"@.len() == 10);
    assert("updated_at_ms"@.len() == 13);
    assert(values[0].0 == "rack_preference_id"@);
    assert(values[1].0 == "game_id"@);
    assert(values[2].0 == "user_id"@);
    assert(values[3].0 == "tile_order"@);
    assert(values[4].0 == "updated_at_ms"@);
    model::inserted_values_hold(values);
}

/// A game advances by the command that was made against its revision, and by no other.
pub proof fn games_advance_from_their_revision(command: CommandView, resulting: u64)
    ensures
        ({
            let op = journal::advance_revision_op(command, resulting);
            &&& op.verb == Verb::Update
            &&& op.table == "games"@
            &&& op.values == seq![("canonical_revision"@, Datum::Integer(resulting as int))]
            &&& op.filters == seq![
                ("game_id"@, Relation::Equal, Datum::Text(ids::id_text_of(command.game_id))),
                (
                    "canonical_revision"@,
                    Relation::Equal,
                    Datum::Integer(command.expected_revision as int),
                ),
            ]
        }),
{
    let op = journal::advance_revision_op(command, resulting);
    assert(op.values =~= seq![("canonical_revision"@, Datum::Integer(resulting as int))]);
    assert(op.filters =~= seq![
        ("game_id"@, Relation::Equal, Datum::Text(ids::id_text_of(command.game_id))),
        (
            "canonical_revision"@,
            Relation::Equal,
            Datum::Integer(command.expected_revision as int),
        ),
    ]);
}

/// A redeemed invitation was active and names who has redeemed it; a revoked one was active and its
/// creator's.
pub proof fn active_invitations_are_used(id: Seq<char>, user: Seq<char>)
    ensures
        ({
            let op = invitations::redeem_op(id, user);
            &&& op.verb == Verb::Update
            &&& op.table == "invitations"@
            &&& op.values == seq![
                ("status"@, Datum::Text("REDEEMED"@)),
                ("redeemed_by_user_id"@, Datum::Text(user)),
            ]
            &&& op.filters == seq![
                ("invitation_id"@, Relation::Equal, Datum::Text(id)),
                ("status"@, Relation::Equal, Datum::Text("ACTIVE"@)),
            ]
        }),
        ({
            let op = invitations::revoke_op(id, user);
            &&& op.verb == Verb::Update
            &&& op.table == "invitations"@
            &&& op.values == seq![("status"@, Datum::Text("REVOKED"@))]
            &&& op.filters == seq![
                ("invitation_id"@, Relation::Equal, Datum::Text(id)),
                ("creator_user_id"@, Relation::Equal, Datum::Text(user)),
                ("status"@, Relation::Equal, Datum::Text("ACTIVE"@)),
            ]
        }),
{
    let redeem = invitations::redeem_op(id, user);
    assert(redeem.values =~= seq![
        ("status"@, Datum::Text("REDEEMED"@)),
        ("redeemed_by_user_id"@, Datum::Text(user)),
    ]);
    assert(redeem.filters =~= seq![
        ("invitation_id"@, Relation::Equal, Datum::Text(id)),
        ("status"@, Relation::Equal, Datum::Text("ACTIVE"@)),
    ]);
    let revoke = invitations::revoke_op(id, user);
    assert(revoke.values =~= seq![("status"@, Datum::Text("REVOKED"@))]);
    assert(revoke.filters =~= seq![
        ("invitation_id"@, Relation::Equal, Datum::Text(id)),
        ("creator_user_id"@, Relation::Equal, Datum::Text(user)),
        ("status"@, Relation::Equal, Datum::Text("ACTIVE"@)),
    ]);
}

/// A login refreshes what the provider says of the identity that logs in.
pub proof fn logins_refresh_their_identity(identity: IdentityView, now_ms: i64)
    ensures
        ({
            let op = external_identities::refresh_identity_op(identity, now_ms);
            &&& op.verb == Verb::Update
            &&& op.table == "external_identities"@
            &&& op.values == seq![
                ("provider_display_name"@, Datum::Text(identity.display_name)),
                ("provider_picture_url"@, attempt_laws::optional(identity.picture_url)),
                ("last_authenticated_at_ms"@, Datum::Integer(now_ms as int)),
            ]
            &&& op.filters == seq![
                ("issuer"@, Relation::Equal, Datum::Text(identity.issuer)),
                ("subject"@, Relation::Equal, Datum::Text(identity.subject)),
            ]
        }),
{
    let op = external_identities::refresh_identity_op(identity, now_ms);
    assert(op.values =~= seq![
        ("provider_display_name"@, Datum::Text(identity.display_name)),
        ("provider_picture_url"@, attempt_laws::optional(identity.picture_url)),
        ("last_authenticated_at_ms"@, Datum::Integer(now_ms as int)),
    ]);
    assert(op.filters =~= seq![
        ("issuer"@, Relation::Equal, Datum::Text(identity.issuer)),
        ("subject"@, Relation::Equal, Datum::Text(identity.subject)),
    ]);
}

/// A definition that was found is kept for thirty days, and that there is none for one day.
pub proof fn definitions_are_kept_for_their_time(now_ms: i64)
    requires
        now_ms <= i64::MAX - 30 * 24 * 60 * 60 * 1000,
    ensures
        definitions::expiry(now_ms, definitions::SUCCESS_TTL_MS) == now_ms + 30 * 24 * 60 * 60
            * 1000,
        definitions::expiry(now_ms, definitions::MISSING_TTL_MS) == now_ms + 24 * 60 * 60 * 1000,
{
}

} // verus!
