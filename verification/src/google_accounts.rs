//! Google authentication and migration of password accounts.
use crate::accounts::{self, authenticate, AccountError};
use crate::external_identities::{
    self, link_external_identity_in_database, resolve_or_create_external_account,
    ExternalIdentityError, VerifiedExternalIdentity,
};
use crate::game::{self, timestamp_ms, Span, Timestamp};
use crate::script::{self, settle, Ask, Reply, Request, Run, Script, Stop, Trace};
use crate::store::{Op, Row, Statement};
use crate::text::{self};
use vstd::prelude::*;

verus! {

/// Google account workflow failure.
#[derive(Debug, Clone, PartialEq, Eq)]
pub enum GoogleAccountWorkflowError {
    MissingPasswordCredential,
    Timestamp,
    Account(AccountError),
    Identity(ExternalIdentityError),
    /// No session could be issued.
    Session(String),
}

impl GoogleAccountWorkflowError {
    /// The error in words; an outside error is told in its own.
    pub open spec fn message_of(self) -> Seq<char> {
        match self {
            GoogleAccountWorkflowError::MissingPasswordCredential => "legacy password credential is unavailable"@,
            GoogleAccountWorkflowError::Timestamp => "legacy migration timestamp is outside the supported range"@,
            GoogleAccountWorkflowError::Account(error) => error.message_of(),
            GoogleAccountWorkflowError::Identity(error) => error.message_of(),
            GoogleAccountWorkflowError::Session(reason) => reason@,
        }
    }

    pub fn message(self) -> (message: String)
        ensures
            message@ == self.message_of(),
    {
        match self {
            GoogleAccountWorkflowError::MissingPasswordCredential => "legacy password credential is unavailable".to_owned(),
            GoogleAccountWorkflowError::Timestamp => "legacy migration timestamp is outside the supported range".to_owned(),
            GoogleAccountWorkflowError::Account(error) => error.message(),
            GoogleAccountWorkflowError::Identity(error) => error.message(),
            GoogleAccountWorkflowError::Session(reason) => reason,
        }
    }
}

fn account_stop<'a>(stop: Stop<'a, AccountError>) -> (wrapped: Stop<'a, GoogleAccountWorkflowError>)
    ensures
        wrapped == (match stop {
            Stop::Wait(request) => Stop::Wait(request),
            Stop::Failed(number) => Stop::Failed(number),
            Stop::Mismatch(number) => Stop::Mismatch(number),
            Stop::Fail(error) => Stop::Fail(GoogleAccountWorkflowError::Account(error)),
        }),
{
    match stop {
        Stop::Wait(request) => Stop::Wait(request),
        Stop::Failed(number) => Stop::Failed(number),
        Stop::Mismatch(number) => Stop::Mismatch(number),
        Stop::Fail(error) => Stop::Fail(GoogleAccountWorkflowError::Account(error)),
    }
}

fn identity_stop<'a>(stop: Stop<'a, ExternalIdentityError>) -> (wrapped: Stop<
    'a,
    GoogleAccountWorkflowError,
>)
    ensures
        wrapped == (match stop {
            Stop::Wait(request) => Stop::Wait(request),
            Stop::Failed(number) => Stop::Failed(number),
            Stop::Mismatch(number) => Stop::Mismatch(number),
            Stop::Fail(error) => Stop::Fail(GoogleAccountWorkflowError::Identity(error)),
        }),
{
    match stop {
        Stop::Wait(request) => Stop::Wait(request),
        Stop::Failed(number) => Stop::Failed(number),
        Stop::Mismatch(number) => Stop::Mismatch(number),
        Stop::Fail(error) => Stop::Fail(GoogleAccountWorkflowError::Identity(error)),
    }
}

/// Issue a session.
pub open spec fn session_run<T>(
    trace: Trace,
    user_id: Seq<char>,
    now: Timestamp,
    lifetime: Span,
    rest: spec_fn(Seq<char>, Trace) -> Run<T, GoogleAccountWorkflowError>,
) -> Run<T, GoogleAccountWorkflowError> {
    script::consult(
        trace,
        Ask::IssueSession(user_id, now, lifetime),
        |reply: Reply| script::reply_text(reply),
        |token: Result<Seq<char>, String>, trace: Trace|
            match token {
                Ok(token) => rest(token, trace),
                Err(reason) => script::fail(trace, GoogleAccountWorkflowError::Session(reason)),
            },
    )
}

fn issue_session<'a>(
    script: &mut Script<'a>,
    user_id: &str,
    now: Timestamp,
    lifetime: Span,
) -> (issued: Result<&'a String, Stop<'a, GoogleAccountWorkflowError>>)
    ensures
        script::ran(issued, final(script)@, |token: &'a String| token@) == session_run(
            old(script)@,
            user_id@,
            now,
            lifetime,
            |token: Seq<char>, trace: Trace| script::done(trace, token),
        ),
{
    match script.text(Request::IssueSession { user_id: user_id.to_owned(), now, lifetime })? {
        Ok(token) => Ok(token),
        Err(reason) => Err(Stop::Fail(GoogleAccountWorkflowError::Session(reason.clone()))),
    }
}

/// Resolve an identity and issue a session for its account.
pub open spec fn login_run(
    trace: Trace,
    identity: external_identities::IdentityView,
    now: Timestamp,
    lifetime: Span,
) -> Run<(Seq<char>, Seq<char>), GoogleAccountWorkflowError> {
    script::chain(
        script::lift(
            external_identities::resolve_run(trace, identity, now),
            |error: ExternalIdentityError| GoogleAccountWorkflowError::Identity(error),
        ),
        |account: (Seq<char>, bool), trace: Trace|
            session_run(
                trace,
                account.0,
                now,
                lifetime,
                |token: Seq<char>, trace: Trace| script::done(trace, (account.0, token)),
            ),
    )
}

/// Resolves a verified Google identity and issues the ordinary session: the user and the session
/// token.
pub fn google_login_and_create_session<'a>(
    script: &mut Script<'a>,
    identity: &VerifiedExternalIdentity,
    now: Timestamp,
    lifetime: Span,
) -> (login: Result<(String, &'a String), Stop<'a, GoogleAccountWorkflowError>>)
    ensures
        script::ran(login, final(script)@, |login: (String, &'a String)| (login.0@, login.1@))
            == login_run(old(script)@, identity@, now, lifetime),
{
    let account = match resolve_or_create_external_account(script, identity, now) {
        Ok(account) => account,
        Err(stop) => return Err(identity_stop(stop)),
    };
    let token = issue_session(script, account.user_id.as_str(), now, lifetime)?;
    Ok((account.user_id, token))
}

/// Proves a password account without creating a session.
pub fn prove_legacy_password_account<'a>(
    script: &mut Script<'a>,
    username: &str,
    password: &str,
) -> (proved: Result<String, Stop<'a, GoogleAccountWorkflowError>>)
    ensures
        script::ran(proved, final(script)@, |user: String| user@) == script::lift(
            accounts::authenticate_run(old(script)@, username@, password@),
            |error: AccountError| GoogleAccountWorkflowError::Account(error),
        ),
{
    match authenticate(script, username, password) {
        Ok(user) => Ok(user),
        Err(stop) => Err(account_stop(stop)),
    }
}

pub open spec fn revoke_sessions_op(user_id: Seq<char>, now_ms: i64) -> Op {
    Op::update("auth_sessions"@).integer("revoked_at_ms"@, now_ms as int).where_text(
        "user_id"@,
        user_id,
    )
}

/// Link the identity, delete the password, revoke every session, and issue one new session.
pub open spec fn migrate_run(
    trace: Trace,
    user_id: Seq<char>,
    identity: external_identities::IdentityView,
    now: Timestamp,
    lifetime: Span,
) -> Run<Seq<char>, GoogleAccountWorkflowError> {
    script::chain(
        script::lift(
            external_identities::link_run(trace, user_id, identity, now),
            |error: ExternalIdentityError| GoogleAccountWorkflowError::Identity(error),
        ),
        |linked: (), trace: Trace|
            script::query(
                trace,
                Op::delete("password_credentials"@).where_text("user_id"@, user_id),
                |deleted: Seq<Row>, trace: Trace|
                    if deleted.len() != 1 {
                        script::fail(trace, GoogleAccountWorkflowError::MissingPasswordCredential)
                    } else {
                        match game::millis_at(now) {
                            None => script::fail(trace, GoogleAccountWorkflowError::Timestamp),
                            Some(now_ms) => script::perform(
                                trace,
                                revoke_sessions_op(user_id, now_ms),
                                |trace: Trace|
                                    session_run(
                                        trace,
                                        user_id,
                                        now,
                                        lifetime,
                                        |token: Seq<char>, trace: Trace|
                                            script::done(trace, token),
                                    ),
                            ),
                        }
                    },
            ),
    )
}

fn migrate<'a>(
    script: &mut Script<'a>,
    existing_user_id: &str,
    identity: &VerifiedExternalIdentity,
    now: Timestamp,
    lifetime: Span,
) -> (migrated: Result<&'a String, Stop<'a, GoogleAccountWorkflowError>>)
    ensures
        script::ran(migrated, final(script)@, |token: &'a String| token@) == migrate_run(
            old(script)@,
            existing_user_id@,
            identity@,
            now,
            lifetime,
        ),
{
    match link_external_identity_in_database(script, existing_user_id, identity, now) {
        Ok(()) => {},
        Err(stop) => return Err(identity_stop(stop)),
    }
    let deleted = script.query(
        Statement::delete("password_credentials").where_text("user_id", existing_user_id),
    )?;
    if deleted.len() != 1 {
        return Err(Stop::Fail(GoogleAccountWorkflowError::MissingPasswordCredential));
    }
    let now_ms: i64 = match timestamp_ms(now) {
        Some(now_ms) => now_ms,
        None => return Err(Stop::Fail(GoogleAccountWorkflowError::Timestamp)),
    };
    script.perform(
        Statement::update("auth_sessions").integer("revoked_at_ms", now_ms).where_text(
            "user_id",
            existing_user_id,
        ),
    )?;
    issue_session(script, existing_user_id, now, lifetime)
}

/// Links a fresh Google authentication to a password-proven account and completes its migration
/// in one transaction; a failure keeps password and sessions.
pub fn complete_legacy_google_migration<'a>(
    script: &mut Script<'a>,
    existing_user_id: &str,
    identity: &VerifiedExternalIdentity,
    now: Timestamp,
    lifetime: Span,
) -> (completed: Result<&'a String, Stop<'a, GoogleAccountWorkflowError>>)
    ensures
        script::ran(completed, final(script)@, |token: &'a String| token@) == script::transaction(
            old(script)@,
            |trace: Trace| migrate_run(trace, existing_user_id@, identity@, now, lifetime),
        ),
{
    script.perform(Statement::begin())?;
    let migrated = migrate(script, existing_user_id, identity, now, lifetime);
    settle(script, migrated)
}

} // verus!
