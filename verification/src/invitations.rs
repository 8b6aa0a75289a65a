//! Hashed, expiring, single-use, and revocable shareable invitations.
use crate::challenges::{self, create_game_in_transaction, ChallengeError};
use crate::crypto::{self, token_hash};
use crate::game::{self, timestamp_ms, GameId, Span, Timestamp};
use crate::ids::{self, id_text};
use crate::lobbies;
use crate::script::{self, Run, Script, Stop, Trace};
use crate::store::{Datum, Op, Row, Statement, Value};
use crate::text::{self, joined, same_text};
use vstd::prelude::*;

verus! {

/// Invitation failure.
#[derive(Debug, Clone, PartialEq, Eq)]
pub enum InvitationError {
    /// The invitation is unknown, expired, revoked, consumed, or someone else's.
    Invalid,
    Collision,
    Timestamp,
    GameCreation(ChallengeError),
}

impl InvitationError {
    /// The error in words; an outside error is told in its own.
    pub open spec fn message_of(self) -> Seq<char> {
        match self {
            InvitationError::Invalid => "invitation is unknown, expired, revoked, consumed, or unauthorized"@,
            InvitationError::Collision => "could not generate a collision-free invitation token"@,
            InvitationError::Timestamp => "invitation timestamp is outside the supported range"@,
            InvitationError::GameCreation(error) => error.message_of(),
        }
    }

    pub fn message(self) -> (message: String)
        ensures
            message@ == self.message_of(),
    {
        match self {
            InvitationError::Invalid => "invitation is unknown, expired, revoked, consumed, or unauthorized".to_owned(),
            InvitationError::Collision => "could not generate a collision-free invitation token".to_owned(),
            InvitationError::Timestamp => "invitation timestamp is outside the supported range".to_owned(),
            InvitationError::GameCreation(error) => error.message(),
        }
    }
}

/// The raw secret of an invitation, handed only to its creator.
#[derive(Debug, Clone, PartialEq, Eq)]
pub struct InvitationToken(String);

impl View for InvitationToken {
    type V = Seq<char>;

    closed spec fn view(&self) -> Seq<char> {
        self.0@
    }
}

impl InvitationToken {
    fn new(secret: String) -> (token: InvitationToken)
        ensures
            token@ == secret@,
    {
        InvitationToken(secret)
    }

    /// The secret for link transport.
    pub fn expose(&self) -> (secret: &str)
        ensures
            secret@ == self@,
    {
        self.0.as_str()
    }
}

pub open spec fn insert_invitation_op(
    id: Seq<char>,
    creator: Seq<char>,
    hash: Seq<char>,
    expires_ms: i64,
    now_ms: i64,
) -> Op {
    Op::insert("invitations"@)
        .text("invitation_id"@, id)
        .text("creator_user_id"@, creator)
        .text("token_hash"@, hash)
        .text("status"@, "ACTIVE"@)
        .integer("expires_at_ms"@, expires_ms as int)
        .value("redeemed_by_user_id"@, Datum::Null)
        .integer("created_at_ms"@, now_ms as int)
}

/// Store an invitation with an unused secret.
pub open spec fn store_invitation_run(
    trace: Trace,
    creator: Seq<char>,
    secret: Seq<char>,
    now: Timestamp,
    expires: Timestamp,
) -> Run<(Seq<char>, Seq<char>), InvitationError> {
    script::draw(
        trace,
        1,
        |drawn: Seq<u128>, trace: Trace|
            match (game::millis_at(expires), game::millis_at(now)) {
                (Some(expires_ms), Some(now_ms)) => script::perform(
                    trace,
                    insert_invitation_op(
                        ids::id_text_of(drawn[0]),
                        creator,
                        crypto::token_hash_of(secret),
                        expires_ms,
                        now_ms,
                    ),
                    |trace: Trace| script::done(trace, (ids::id_text_of(drawn[0]), secret)),
                ),
                _ => script::fail(trace, InvitationError::Timestamp),
            },
    )
}

/// Try up to `attempts` fresh secrets until one is unused.
pub open spec fn try_invitation_run(
    trace: Trace,
    creator: Seq<char>,
    now: Timestamp,
    expires: Timestamp,
    attempts: int,
) -> Run<(Seq<char>, Seq<char>), InvitationError>
    decreases attempts,
{
    if attempts <= 0 {
        script::fail(trace, InvitationError::Collision)
    } else {
        script::draw(
            trace,
            2,
            |drawn: Seq<u128>, trace: Trace|
                script::query(
                    trace,
                    Op::select("invitations"@).where_text(
                        "token_hash"@,
                        crypto::token_hash_of(lobbies::secret_of(drawn[0], drawn[1])),
                    ),
                    |used: Seq<Row>, trace: Trace|
                        if used.len() > 0 {
                            try_invitation_run(trace, creator, now, expires, attempts - 1)
                        } else {
                            store_invitation_run(
                                trace,
                                creator,
                                lobbies::secret_of(drawn[0], drawn[1]),
                                now,
                                expires,
                            )
                        },
                ),
        )
    }
}

/// Create an invitation that expires after a lifetime.
pub open spec fn create_invitation_run(
    trace: Trace,
    creator: Seq<char>,
    now: Timestamp,
    lifetime: Span,
) -> Run<(Seq<char>, Seq<char>), InvitationError> {
    match game::moment_after(now, lifetime) {
        None => script::fail(trace, InvitationError::Timestamp),
        Some(expires) => try_invitation_run(trace, creator, now, expires, 4),
    }
}

/// Creates an invitation while storing only the digest of its secret.
///
/// Returns the invitation's identity and its secret.
pub fn create_invitation<'a>(
    script: &mut Script<'a>,
    creator_user_id: &str,
    now: Timestamp,
    lifetime: Span,
) -> (created: Result<(String, InvitationToken), Stop<'a, InvitationError>>)
    requires
        lifetime.valid(),
    ensures
        script::ran(
            created,
            final(script)@,
            |made: (String, InvitationToken)| (made.0@, made.1@),
        ) == create_invitation_run(old(script)@, creator_user_id@, now, lifetime),
{
    let expires = match now.plus(lifetime) {
        Some(expires) => expires,
        None => return Err(Stop::Fail(InvitationError::Timestamp)),
    };
    let mut attempts: u8 = 4;
    while attempts > 0
        invariant
            create_invitation_run(old(script)@, creator_user_id@, now, lifetime)
                == try_invitation_run(
                script@,
                creator_user_id@,
                now,
                expires,
                attempts as int,
            ),
        decreases attempts,
    {
        let drawn = script.draw(2)?;
        let secret: String = joined(id_text(drawn[0]).as_str(), id_text(drawn[1]).as_str());
        let hash = token_hash(secret.as_str());
        let used = script.query(
            Statement::select("invitations").where_text("token_hash", hash.as_str()),
        )?;
        if used.len() == 0 {
            let invitation_id: String = id_text(script.draw(1)?[0]);
            let (expires_ms, now_ms): (i64, i64) = match (
                timestamp_ms(expires),
                timestamp_ms(now),
            ) {
                (Some(expires_ms), Some(now_ms)) => (expires_ms, now_ms),
                _ => return Err(Stop::Fail(InvitationError::Timestamp)),
            };
            script.perform(
                Statement::insert("invitations")
                    .text("invitation_id", invitation_id.as_str())
                    .text("creator_user_id", creator_user_id)
                    .text("token_hash", hash.as_str())
                    .text("status", "ACTIVE")
                    .integer("expires_at_ms", expires_ms)
                    .value("redeemed_by_user_id", Value::Null)
                    .integer("created_at_ms", now_ms),
            )?;
            return Ok((invitation_id, InvitationToken::new(secret)));
        }
        attempts = attempts - 1;
    }
    Err(Stop::Fail(InvitationError::Collision))
}

pub open spec fn redeem_op(id: Seq<char>, redeemer: Seq<char>) -> Op {
    Op::update("invitations"@)
        .text("status"@, "REDEEMED"@)
        .text("redeemed_by_user_id"@, redeemer)
        .where_text("invitation_id"@, id)
        .where_text("status"@, "ACTIVE"@)
}

/// Roll back and report an invalid invitation.
pub open spec fn reject_run<T>(trace: Trace) -> Run<T, InvitationError> {
    script::perform(
        trace,
        Op::rollback(),
        |trace: Trace| script::fail(trace, InvitationError::Invalid),
    )
}

/// Begin a transaction and mark an active invitation redeemed; yields its identity and creator.
pub open spec fn mark_redeemed_run(
    trace: Trace,
    secret: Seq<char>,
    redeemer: Seq<char>,
    now: Timestamp,
) -> Run<(Seq<char>, Seq<char>), InvitationError> {
    script::perform(
        trace,
        Op::begin(),
        |trace: Trace|
            script::query(
                trace,
                Op::select("invitations"@).where_text(
                    "token_hash"@,
                    crypto::token_hash_of(secret),
                ).where_text("status"@, "ACTIVE"@),
                |rows: Seq<Row>, trace: Trace|
                    if rows.len() == 0 {
                        script::fail(trace, InvitationError::Invalid)
                    } else {
                        mark_row_run(trace, rows[0], redeemer, now)
                    },
            ),
    )
}

pub open spec fn mark_row_run(trace: Trace, row: Row, redeemer: Seq<char>, now: Timestamp) -> Run<
    (Seq<char>, Seq<char>),
    InvitationError,
> {
    match (
        row.text_at("invitation_id"@),
        row.text_at("creator_user_id"@),
        row.integer_at("expires_at_ms"@),
    ) {
        (Some(id), Some(creator), Some(expires_ms)) => if creator == redeemer {
            reject_run(trace)
        } else {
            match game::millis_at(now) {
                None => script::fail(trace, InvitationError::Timestamp),
                Some(now_ms) => if expires_ms <= now_ms {
                    reject_run(trace)
                } else {
                    script::query(
                        trace,
                        redeem_op(id, redeemer),
                        |updated: Seq<Row>, trace: Trace|
                            if updated.len() != 1 {
                                reject_run(trace)
                            } else {
                                script::done(trace, (id, creator))
                            },
                    )
                },
            }
        },
        _ => script::fail(trace, InvitationError::Invalid),
    }
}

fn reject<'a>(script: &mut Script<'a>) -> (stop: Stop<'a, InvitationError>)
    ensures
        script::ran(Err::<(), Stop<'a, InvitationError>>(stop), final(script)@, |none: ()| none)
            == reject_run::<()>(old(script)@),
{
    match script.perform(Statement::rollback()) {
        Ok(()) => Stop::Fail(InvitationError::Invalid),
        Err(stop) => stop,
    }
}

fn mark_redeemed<'a>(
    script: &mut Script<'a>,
    token: &str,
    redeemer_user_id: &str,
    now: Timestamp,
) -> (marked: Result<(String, String), Stop<'a, InvitationError>>)
    ensures
        script::ran(marked, final(script)@, |marked: (String, String)| (marked.0@, marked.1@))
            == mark_redeemed_run(old(script)@, token@, redeemer_user_id@, now),
{
    script.perform(Statement::begin())?;
    let rows = script.query(
        Statement::select("invitations").where_text(
            "token_hash",
            token_hash(token).as_str(),
        ).where_text("status", "ACTIVE"),
    )?;
    if rows.len() == 0 {
        return Err(Stop::Fail(InvitationError::Invalid));
    }
    let row = &rows[0];
    let (id, creator, expires_ms): (String, String, i64) = match (
        row.get_text("invitation_id"),
        row.get_text("creator_user_id"),
        row.get_integer("expires_at_ms"),
    ) {
        (Some(id), Some(creator), Some(expires_ms)) => (id, creator, expires_ms),
        _ => return Err(Stop::Fail(InvitationError::Invalid)),
    };
    if same_text(creator.as_str(), redeemer_user_id) {
        return Err(reject(script));
    }
    let now_ms: i64 = match timestamp_ms(now) {
        Some(now_ms) => now_ms,
        None => return Err(Stop::Fail(InvitationError::Timestamp)),
    };
    if expires_ms <= now_ms {
        return Err(reject(script));
    }
    let updated = script.query(
        Statement::update("invitations")
            .text("status", "REDEEMED")
            .text("redeemed_by_user_id", redeemer_user_id)
            .where_text("invitation_id", id.as_str())
            .where_text("status", "ACTIVE"),
    )?;
    if updated.len() != 1 {
        return Err(reject(script));
    }
    Ok((id, creator))
}

/// Redeem an invitation.
pub open spec fn redeem_run(
    trace: Trace,
    secret: Seq<char>,
    redeemer: Seq<char>,
    now: Timestamp,
) -> Run<Seq<char>, InvitationError> {
    script::chain(
        mark_redeemed_run(trace, secret, redeemer, now),
        |marked: (Seq<char>, Seq<char>), trace: Trace|
            script::perform(trace, Op::commit(), |trace: Trace| script::done(trace, marked.0)),
    )
}

/// Redeems one active invitation exactly once for an authenticated user; returns its identity.
pub fn redeem_invitation<'a>(
    script: &mut Script<'a>,
    token: &str,
    redeemer_user_id: &str,
    now: Timestamp,
) -> (redeemed: Result<String, Stop<'a, InvitationError>>)
    ensures
        script::ran(redeemed, final(script)@, |id: String| id@) == redeem_run(
            old(script)@,
            token@,
            redeemer_user_id@,
            now,
        ),
{
    let (id, creator) = mark_redeemed(script, token, redeemer_user_id, now)?;
    script.perform(Statement::commit())?;
    Ok(id)
}

fn creation_stop<'a>(stop: Stop<'a, ChallengeError>) -> (wrapped: Stop<'a, InvitationError>)
    ensures
        wrapped == (match stop {
            Stop::Wait(request) => Stop::Wait(request),
            Stop::Failed(number) => Stop::Failed(number),
            Stop::Mismatch(number) => Stop::Mismatch(number),
            Stop::Fail(error) => Stop::Fail(InvitationError::GameCreation(error)),
        }),
{
    match stop {
        Stop::Wait(request) => Stop::Wait(request),
        Stop::Failed(number) => Stop::Failed(number),
        Stop::Mismatch(number) => Stop::Mismatch(number),
        Stop::Fail(error) => Stop::Fail(InvitationError::GameCreation(error)),
    }
}

/// Redeem an invitation and start the game of its creator and the redeemer.
pub open spec fn redeem_and_start_run(
    trace: Trace,
    secret: Seq<char>,
    redeemer: Seq<char>,
    now: Timestamp,
    seed: u64,
) -> Run<GameId, InvitationError> {
    script::chain(
        mark_redeemed_run(trace, secret, redeemer, now),
        |marked: (Seq<char>, Seq<char>), trace: Trace|
            script::chain(
                script::lift(
                    challenges::create_classic_game_run(
                        trace,
                        seq![marked.1, redeemer],
                        0,
                        now,
                        seed,
                        "redeem:"@ + marked.0,
                    ),
                    |error: ChallengeError| InvitationError::GameCreation(error),
                ),
                |game: GameId, trace: Trace|
                    script::perform(trace, Op::commit(), |trace: Trace| script::done(trace, game)),
            ),
    )
}

/// Redeems one active invitation and starts its game exactly once.
pub fn redeem_invitation_and_start_game<'a>(
    script: &mut Script<'a>,
    token: &str,
    redeemer_user_id: &str,
    now: Timestamp,
    shuffle_seed: u64,
) -> (started: Result<GameId, Stop<'a, InvitationError>>)
    ensures
        script::ran(started, final(script)@, |game: GameId| game) == redeem_and_start_run(
            old(script)@,
            token@,
            redeemer_user_id@,
            now,
            shuffle_seed,
        ),
{
    let (id, creator) = mark_redeemed(script, token, redeemer_user_id, now)?;
    let game_id: GameId = match create_game_in_transaction(
        script,
        creator.as_str(),
        redeemer_user_id,
        now,
        shuffle_seed,
        joined("redeem:", id.as_str()).as_str(),
    ) {
        Ok(game_id) => game_id,
        Err(stop) => return Err(creation_stop(stop)),
    };
    script.perform(Statement::commit())?;
    Ok(game_id)
}

pub open spec fn revoke_op(id: Seq<char>, creator: Seq<char>) -> Op {
    Op::update("invitations"@)
        .text("status"@, "REVOKED"@)
        .where_text("invitation_id"@, id)
        .where_text("creator_user_id"@, creator)
        .where_text("status"@, "ACTIVE"@)
}

/// Revoke an active invitation of its creator.
pub open spec fn revoke_run(trace: Trace, id: Seq<char>, creator: Seq<char>) -> Run<
    (),
    InvitationError,
> {
    script::query(
        trace,
        revoke_op(id, creator),
        |updated: Seq<Row>, trace: Trace|
            if updated.len() != 1 {
                script::fail(trace, InvitationError::Invalid)
            } else {
                script::done(trace, ())
            },
    )
}

/// Revokes an active invitation owned by the authenticated creator.
pub fn revoke_invitation<'a>(
    script: &mut Script<'a>,
    invitation_id: &str,
    creator_user_id: &str,
) -> (revoked: Result<(), Stop<'a, InvitationError>>)
    ensures
        script::ran(revoked, final(script)@, |revoked: ()| revoked) == revoke_run(
            old(script)@,
            invitation_id@,
            creator_user_id@,
        ),
{
    let updated = script.query(
        Statement::update("invitations")
            .text("status", "REVOKED")
            .where_text("invitation_id", invitation_id)
            .where_text("creator_user_id", creator_user_id)
            .where_text("status", "ACTIVE"),
    )?;
    if updated.len() != 1 {
        return Err(Stop::Fail(InvitationError::Invalid));
    }
    Ok(())
}

} // verus!
