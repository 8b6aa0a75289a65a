//! Durable, browser-bound OpenID Connect login attempts.
use crate::crypto::{self, hex, token_hash};
use crate::game::{self, timestamp_ms, Span, Timestamp};
use crate::ids::{self, id_text};
use crate::script::{self, Run, Script, Stop, Trace};
use crate::store::{self, Datum, Op, Row, Statement, Value};
use crate::text::{self, same_text};
use vstd::prelude::*;

verus! {

/// Attempt failure.
#[derive(Debug, Clone, Copy, PartialEq, Eq, Structural)]
pub enum OidcAttemptError {
    Invalid,
    Collision,
    Timestamp,
}

impl OidcAttemptError {
    /// The error in words; an outside error is told in its own.
    pub open spec fn message_of(self) -> Seq<char> {
        match self {
            OidcAttemptError::Invalid => "OIDC attempt is invalid, expired, mismatched, or already used"@,
            OidcAttemptError::Collision => "could not generate a collision-free OIDC state"@,
            OidcAttemptError::Timestamp => "OIDC attempt timestamp is outside the supported range"@,
        }
    }

    pub fn message(self) -> (message: String)
        ensures
            message@ == self.message_of(),
    {
        match self {
            OidcAttemptError::Invalid => "OIDC attempt is invalid, expired, mismatched, or already used".to_owned(),
            OidcAttemptError::Collision => "could not generate a collision-free OIDC state".to_owned(),
            OidcAttemptError::Timestamp => "OIDC attempt timestamp is outside the supported range".to_owned(),
        }
    }
}

/// What an attempt is for.
#[derive(Debug, Clone, Copy, PartialEq, Eq, Structural)]
pub enum OidcAttemptPurpose {
    /// Log in, or create an account.
    Login,
    /// Link the identity to a password-proven account.
    MigratePassword,
}

impl OidcAttemptPurpose {
    pub open spec fn name(self) -> Seq<char> {
        match self {
            OidcAttemptPurpose::Login => "LOGIN"@,
            OidcAttemptPurpose::MigratePassword => "MIGRATE_PASSWORD"@,
        }
    }

    pub fn as_str(self) -> (name: &'static str)
        ensures
            name@ == self.name(),
    {
        match self {
            OidcAttemptPurpose::Login => "LOGIN",
            OidcAttemptPurpose::MigratePassword => "MIGRATE_PASSWORD",
        }
    }

    pub open spec fn named(name: Seq<char>) -> Option<OidcAttemptPurpose> {
        if name == "LOGIN"@ {
            Some(OidcAttemptPurpose::Login)
        } else if name == "MIGRATE_PASSWORD"@ {
            Some(OidcAttemptPurpose::MigratePassword)
        } else {
            None
        }
    }

    fn read(name: &str) -> (purpose: Option<OidcAttemptPurpose>)
        ensures
            purpose == OidcAttemptPurpose::named(name@),
    {
        if same_text(name, "LOGIN") {
            Some(OidcAttemptPurpose::Login)
        } else if same_text(name, "MIGRATE_PASSWORD") {
            Some(OidcAttemptPurpose::MigratePassword)
        } else {
            None
        }
    }
}

/// Reading a purpose's name gives the purpose back.
pub proof fn purpose_names_round_trip(purpose: OidcAttemptPurpose)
    ensures
        OidcAttemptPurpose::named(purpose.name()) == Some(purpose),
{
    reveal_strlit("LOGIN");
    reveal_strlit("MIGRATE_PASSWORD");
    assert("LOGIN"@.len() == 5);
    assert("MIGRATE_PASSWORD"@.len() == 16);
}

/// Whether a PKCE verifier has one of the lengths that the protocol allows.
pub open spec fn verifier_fits(verifier: Seq<char>) -> bool {
    43 <= vstd::utf8::encode_utf8(verifier).len() <= 128
}

/// The hexadecimal form of 32 bytes fits as a PKCE verifier.
pub proof fn hex_verifiers_fit(bytes: Seq<u8>)
    requires
        bytes.len() == 32,
    ensures
        verifier_fits(crypto::hex_of(bytes)),
{
    let verifier = crypto::hex_of(bytes);
    assert forall|i: int| 0 <= i < verifier.len() implies 0 <= #[trigger] verifier[i] as nat
        && (verifier[i] as nat) < 128 by {
        crypto::hex_is_lower_case(bytes, i);
    }
    assert(vstd::utf8::is_ascii_chars(verifier));
    vstd::utf8::is_ascii_chars_encode_utf8(verifier);
}

/// The secrets of a new attempt, for the browser and the provider only.
#[derive(Debug)]
pub struct NewOidcAttempt {
    pub attempt_id: String,
    pub state: String,
    pub browser_binding: String,
    pub nonce: String,
    pub pkce_verifier: String,
}

/// The mathematical content of a [`NewOidcAttempt`].
#[verifier::ext_equal]
pub struct NewAttemptView {
    pub attempt_id: Seq<char>,
    pub state: Seq<char>,
    pub browser_binding: Seq<char>,
    pub nonce: Seq<char>,
    pub pkce_verifier: Seq<char>,
}

impl View for NewOidcAttempt {
    type V = NewAttemptView;

    open spec fn view(&self) -> NewAttemptView {
        NewAttemptView {
            attempt_id: self.attempt_id@,
            state: self.state@,
            browser_binding: self.browser_binding@,
            nonce: self.nonce@,
            pkce_verifier: self.pkce_verifier@,
        }
    }
}

/// A claimed attempt with what its callback is validated against.
#[derive(Debug, Clone, PartialEq, Eq)]
pub struct ClaimedOidcAttempt {
    pub attempt_id: String,
    pub purpose: OidcAttemptPurpose,
    pub nonce: String,
    pub pkce_verifier: String,
    pub existing_user_id: Option<String>,
    pub continuation_invitation_id: Option<String>,
}

/// The mathematical content of a [`ClaimedOidcAttempt`].
#[verifier::ext_equal]
pub struct ClaimedView {
    pub attempt_id: Seq<char>,
    pub purpose: OidcAttemptPurpose,
    pub nonce: Seq<char>,
    pub pkce_verifier: Seq<char>,
    pub existing_user_id: Option<Seq<char>>,
    pub continuation_invitation_id: Option<Seq<char>>,
}

impl View for ClaimedOidcAttempt {
    type V = ClaimedView;

    open spec fn view(&self) -> ClaimedView {
        ClaimedView {
            attempt_id: self.attempt_id@,
            purpose: self.purpose,
            nonce: self.nonce@,
            pkce_verifier: self.pkce_verifier@,
            existing_user_id: text::opt_view(self.existing_user_id),
            continuation_invitation_id: text::opt_view(self.continuation_invitation_id),
        }
    }
}

/// What an attempt is made for.
pub struct AttemptView {
    pub purpose: OidcAttemptPurpose,
    pub existing_user_id: Option<Seq<char>>,
    pub continuation_invitation_id: Option<Seq<char>>,
}

pub open spec fn insert_attempt_op(
    wanted: AttemptView,
    attempt: NewAttemptView,
    now_ms: i64,
    expires_ms: i64,
) -> Op {
    Op::insert("auth_login_attempts"@)
        .text("attempt_id"@, attempt.attempt_id)
        .text("state_hash"@, crypto::token_hash_of(attempt.state))
        .text("browser_binding_hash"@, crypto::token_hash_of(attempt.browser_binding))
        .text("nonce"@, attempt.nonce)
        .text("pkce_verifier"@, attempt.pkce_verifier)
        .text("purpose"@, wanted.purpose.name())
        .value("existing_user_id"@, store::datum_of_option(wanted.existing_user_id))
        .value(
            "continuation_invitation_id"@,
            store::datum_of_option(wanted.continuation_invitation_id),
        )
        .text("status"@, "PENDING"@)
        .integer("created_at_ms"@, now_ms as int)
        .integer("expires_at_ms"@, expires_ms as int)
        .value("claimed_at_ms"@, Datum::Null)
        .value("consumed_at_ms"@, Datum::Null)
}

/// Store an attempt with an unused state.
pub open spec fn store_attempt_run(
    trace: Trace,
    wanted: AttemptView,
    state: Seq<char>,
    now: Timestamp,
    expires: Timestamp,
) -> Run<NewAttemptView, OidcAttemptError> {
    script::draw(
        trace,
        1,
        |drawn: Seq<u128>, trace: Trace|
            script::draw_bytes(
                trace,
                32,
                |binding: Seq<u8>, trace: Trace|
                    script::draw_bytes(
                        trace,
                        32,
                        |nonce: Seq<u8>, trace: Trace|
                            script::draw_bytes(
                                trace,
                                32,
                                |verifier: Seq<u8>, trace: Trace|
                                    {
                                        let attempt = NewAttemptView {
                                            attempt_id: ids::id_text_of(drawn[0]),
                                            state,
                                            browser_binding: crypto::hex_of(binding),
                                            nonce: crypto::hex_of(nonce),
                                            pkce_verifier: crypto::hex_of(verifier),
                                        };
                                        match (game::millis_at(now), game::millis_at(expires)) {
                                            (Some(now_ms), Some(expires_ms)) => script::perform(
                                                trace,
                                                insert_attempt_op(
                                                    wanted,
                                                    attempt,
                                                    now_ms,
                                                    expires_ms,
                                                ),
                                                |trace: Trace| script::done(trace, attempt),
                                            ),
                                            _ => script::fail(trace, OidcAttemptError::Timestamp),
                                        }
                                    },
                            ),
                    ),
            ),
    )
}

/// Try up to `attempts` fresh states until one is unused.
pub open spec fn try_attempt_run(
    trace: Trace,
    wanted: AttemptView,
    now: Timestamp,
    expires: Timestamp,
    attempts: int,
) -> Run<NewAttemptView, OidcAttemptError>
    decreases attempts,
{
    if attempts <= 0 {
        script::fail(trace, OidcAttemptError::Collision)
    } else {
        script::draw_bytes(
            trace,
            32,
            |state: Seq<u8>, trace: Trace|
                script::query(
                    trace,
                    Op::select("auth_login_attempts"@).where_text(
                        "state_hash"@,
                        crypto::token_hash_of(crypto::hex_of(state)),
                    ),
                    |used: Seq<Row>, trace: Trace|
                        if used.len() > 0 {
                            try_attempt_run(trace, wanted, now, expires, attempts - 1)
                        } else {
                            store_attempt_run(trace, wanted, crypto::hex_of(state), now, expires)
                        },
                ),
        )
    }
}

/// Whether the arguments of an attempt fit its purpose.
pub open spec fn fits_purpose(wanted: AttemptView, lifetime: Span) -> bool {
    lifetime.nanos > 0 && (wanted.existing_user_id is Some <==> wanted.purpose
        == OidcAttemptPurpose::MigratePassword)
}

/// Create a short-lived attempt bound to a browser.
pub open spec fn create_attempt_run(
    trace: Trace,
    wanted: AttemptView,
    now: Timestamp,
    lifetime: Span,
) -> Run<NewAttemptView, OidcAttemptError> {
    if !fits_purpose(wanted, lifetime) {
        script::fail(trace, OidcAttemptError::Invalid)
    } else {
        match game::moment_after(now, lifetime) {
            None => script::fail(trace, OidcAttemptError::Timestamp),
            Some(expires) => try_attempt_run(trace, wanted, now, expires, 4),
        }
    }
}

fn store_attempt<'a>(
    script: &mut Script<'a>,
    purpose: OidcAttemptPurpose,
    existing_user_id: &Option<String>,
    continuation_invitation_id: &Option<String>,
    state: String,
    now: Timestamp,
    expires: Timestamp,
) -> (stored: Result<NewOidcAttempt, Stop<'a, OidcAttemptError>>)
    ensures
        script::ran(stored, final(script)@, |attempt: NewOidcAttempt| attempt@)
            == store_attempt_run(
            old(script)@,
            AttemptView {
                purpose,
                existing_user_id: text::opt_view(*existing_user_id),
                continuation_invitation_id: text::opt_view(*continuation_invitation_id),
            },
            state@,
            now,
            expires,
        ),
        stored matches Ok(attempt) ==> verifier_fits(attempt.pkce_verifier@),
{
    let attempt_id: String = id_text(script.draw(1)?[0]);
    let browser_binding = hex(script.draw_bytes(32)?.as_slice());
    let nonce = hex(script.draw_bytes(32)?.as_slice());
    let verifier = script.draw_bytes(32)?;
    let pkce_verifier = hex(verifier.as_slice());
    proof {
        hex_verifiers_fit(verifier@);
    }
    let attempt = NewOidcAttempt { attempt_id, state, browser_binding, nonce, pkce_verifier };
    let (now_ms, expires_ms): (i64, i64) = match (timestamp_ms(now), timestamp_ms(expires)) {
        (Some(now_ms), Some(expires_ms)) => (now_ms, expires_ms),
        _ => return Err(Stop::Fail(OidcAttemptError::Timestamp)),
    };
    script.perform(
        Statement::insert("auth_login_attempts")
            .text("attempt_id", attempt.attempt_id.as_str())
            .text("state_hash", token_hash(attempt.state.as_str()).as_str())
            .text("browser_binding_hash", token_hash(attempt.browser_binding.as_str()).as_str())
            .text("nonce", attempt.nonce.as_str())
            .text("pkce_verifier", attempt.pkce_verifier.as_str())
            .text("purpose", purpose.as_str())
            .value("existing_user_id", Value::optional_text(existing_user_id))
            .value("continuation_invitation_id", Value::optional_text(continuation_invitation_id))
            .text("status", "PENDING")
            .integer("created_at_ms", now_ms)
            .integer("expires_at_ms", expires_ms)
            .value("claimed_at_ms", Value::Null)
            .value("consumed_at_ms", Value::Null),
    )?;
    Ok(attempt)
}

/// Creates one short-lived browser-bound attempt; only digests of state and binding are stored.
pub fn create_oidc_attempt<'a>(
    script: &mut Script<'a>,
    purpose: OidcAttemptPurpose,
    existing_user_id: &Option<String>,
    continuation_invitation_id: &Option<String>,
    now: Timestamp,
    lifetime: Span,
) -> (created: Result<NewOidcAttempt, Stop<'a, OidcAttemptError>>)
    requires
        lifetime.valid(),
    ensures
        script::ran(created, final(script)@, |attempt: NewOidcAttempt| attempt@)
            == create_attempt_run(
            old(script)@,
            AttemptView {
                purpose,
                existing_user_id: text::opt_view(*existing_user_id),
                continuation_invitation_id: text::opt_view(*continuation_invitation_id),
            },
            now,
            lifetime,
        ),
        created matches Ok(attempt) ==> verifier_fits(attempt.pkce_verifier@),
{
    let ghost wanted = AttemptView {
        purpose,
        existing_user_id: text::opt_view(*existing_user_id),
        continuation_invitation_id: text::opt_view(*continuation_invitation_id),
    };
    if lifetime.nanos <= 0 || (purpose == OidcAttemptPurpose::Login && existing_user_id.is_some())
        || (purpose == OidcAttemptPurpose::MigratePassword && existing_user_id.is_none()) {
        return Err(Stop::Fail(OidcAttemptError::Invalid));
    }
    let expires = match now.plus(lifetime) {
        Some(expires) => expires,
        None => return Err(Stop::Fail(OidcAttemptError::Timestamp)),
    };
    let mut attempts: u8 = 4;
    while attempts > 0
        invariant
            wanted == (AttemptView {
                purpose,
                existing_user_id: text::opt_view(*existing_user_id),
                continuation_invitation_id: text::opt_view(*continuation_invitation_id),
            }),
            create_attempt_run(old(script)@, wanted, now, lifetime) == try_attempt_run(
                script@,
                wanted,
                now,
                expires,
                attempts as int,
            ),
        decreases attempts,
    {
        let state = hex(script.draw_bytes(32)?.as_slice());
        let used = script.query(
            Statement::select("auth_login_attempts").where_text(
                "state_hash",
                token_hash(state.as_str()).as_str(),
            ),
        )?;
        if used.len() == 0 {
            return store_attempt(
                script,
                purpose,
                existing_user_id,
                continuation_invitation_id,
                state,
                now,
                expires,
            );
        }
        attempts = attempts - 1;
    }
    Err(Stop::Fail(OidcAttemptError::Collision))
}

/// The attempt in one stored row.
pub open spec fn attempt_row(row: Row) -> Option<ClaimedView> {
    match (
        row.text_at("attempt_id"@),
        row.text_at("purpose"@),
        row.text_at("nonce"@),
        row.text_at("pkce_verifier"@),
    ) {
        (Some(attempt_id), Some(purpose), Some(nonce), Some(pkce_verifier)) => match
            OidcAttemptPurpose::named(purpose) {
            Some(purpose) => Some(
                ClaimedView {
                    attempt_id,
                    purpose,
                    nonce,
                    pkce_verifier,
                    existing_user_id: row.text_at("existing_user_id"@),
                    continuation_invitation_id: row.text_at("continuation_invitation_id"@),
                },
            ),
            None => None,
        },
        _ => None,
    }
}

fn read_attempt(row: &Row) -> (attempt: Option<ClaimedOidcAttempt>)
    ensures
        match attempt {
            Some(attempt) => attempt_row(*row) == Some(attempt@),
            None => attempt_row(*row) is None,
        },
{
    match (
        row.get_text("attempt_id"),
        row.get_text("purpose"),
        row.get_text("nonce"),
        row.get_text("pkce_verifier"),
    ) {
        (Some(attempt_id), Some(purpose), Some(nonce), Some(pkce_verifier)) => match
            OidcAttemptPurpose::read(purpose.as_str()) {
            Some(purpose) => Some(
                ClaimedOidcAttempt {
                    attempt_id,
                    purpose,
                    nonce,
                    pkce_verifier,
                    existing_user_id: row.get_text("existing_user_id"),
                    continuation_invitation_id: row.get_text("continuation_invitation_id"),
                },
            ),
            None => None,
        },
        _ => None,
    }
}

pub open spec fn pending_attempt_op(state: Seq<char>, binding: Seq<char>) -> Op {
    Op::select("auth_login_attempts"@)
        .where_text("state_hash"@, crypto::token_hash_of(state))
        .where_text("browser_binding_hash"@, crypto::token_hash_of(binding))
        .where_text("status"@, "PENDING"@)
}

pub open spec fn claim_op(attempt_id: Seq<char>, state: Seq<char>, now_ms: i64) -> Op {
    Op::update("auth_login_attempts"@)
        .text("status"@, "CLAIMED"@)
        .integer("claimed_at_ms"@, now_ms as int)
        .where_text("attempt_id"@, attempt_id)
        .where_text("state_hash"@, crypto::token_hash_of(state))
        .where_text("status"@, "PENDING"@)
}

/// Claim the pending attempt with a state and a browser binding.
pub open spec fn claim_run(
    trace: Trace,
    state: Seq<char>,
    binding: Seq<char>,
    now: Timestamp,
) -> Run<ClaimedView, OidcAttemptError> {
    script::query(
        trace,
        pending_attempt_op(state, binding),
        |rows: Seq<Row>, trace: Trace|
            if rows.len() == 0 {
                script::fail(trace, OidcAttemptError::Invalid)
            } else {
                claim_row_run(trace, rows[0], state, now)
            },
    )
}

pub open spec fn claim_row_run(trace: Trace, row: Row, state: Seq<char>, now: Timestamp) -> Run<
    ClaimedView,
    OidcAttemptError,
> {
    match (row.integer_at("expires_at_ms"@), game::millis_at(now)) {
        (None, _) => script::fail(trace, OidcAttemptError::Invalid),
        (_, None) => script::fail(trace, OidcAttemptError::Timestamp),
        (Some(expires_ms), Some(now_ms)) => if expires_ms <= now_ms {
            script::fail(trace, OidcAttemptError::Invalid)
        } else {
            match attempt_row(row) {
                None => script::fail(trace, OidcAttemptError::Invalid),
                Some(attempt) => script::query(
                    trace,
                    claim_op(attempt.attempt_id, state, now_ms),
                    |updated: Seq<Row>, trace: Trace|
                        if updated.len() != 1 {
                            script::fail(trace, OidcAttemptError::Invalid)
                        } else {
                            script::done(trace, attempt)
                        },
                ),
            }
        },
    }
}

/// Claims a valid pending attempt exactly once.
pub fn claim_oidc_attempt<'a>(
    script: &mut Script<'a>,
    state: &str,
    browser_binding: &str,
    now: Timestamp,
) -> (claimed: Result<ClaimedOidcAttempt, Stop<'a, OidcAttemptError>>)
    ensures
        script::ran(claimed, final(script)@, |attempt: ClaimedOidcAttempt| attempt@) == claim_run(
            old(script)@,
            state@,
            browser_binding@,
            now,
        ),
{
    let state_hash = token_hash(state);
    let rows = script.query(
        Statement::select("auth_login_attempts")
            .where_text("state_hash", state_hash.as_str())
            .where_text("browser_binding_hash", token_hash(browser_binding).as_str())
            .where_text("status", "PENDING"),
    )?;
    if rows.len() == 0 {
        return Err(Stop::Fail(OidcAttemptError::Invalid));
    }
    let expires_ms: i64 = match rows[0].get_integer("expires_at_ms") {
        Some(expires_ms) => expires_ms,
        None => return Err(Stop::Fail(OidcAttemptError::Invalid)),
    };
    let now_ms: i64 = match timestamp_ms(now) {
        Some(now_ms) => now_ms,
        None => return Err(Stop::Fail(OidcAttemptError::Timestamp)),
    };
    if expires_ms <= now_ms {
        return Err(Stop::Fail(OidcAttemptError::Invalid));
    }
    let attempt = match read_attempt(&rows[0]) {
        Some(attempt) => attempt,
        None => return Err(Stop::Fail(OidcAttemptError::Invalid)),
    };
    let updated = script.query(
        Statement::update("auth_login_attempts")
            .text("status", "CLAIMED")
            .integer("claimed_at_ms", now_ms)
            .where_text("attempt_id", attempt.attempt_id.as_str())
            .where_text("state_hash", state_hash.as_str())
            .where_text("status", "PENDING"),
    )?;
    if updated.len() != 1 {
        return Err(Stop::Fail(OidcAttemptError::Invalid));
    }
    Ok(attempt)
}

pub open spec fn consume_op(attempt_id: Seq<char>, now_ms: i64) -> Op {
    Op::update("auth_login_attempts"@)
        .text("status"@, "CONSUMED"@)
        .integer("consumed_at_ms"@, now_ms as int)
        .where_text("attempt_id"@, attempt_id)
        .where_text("status"@, "CLAIMED"@)
}

/// Mark a claimed attempt consumed.
pub open spec fn consume_run(trace: Trace, attempt_id: Seq<char>, now: Timestamp) -> Run<
    (),
    OidcAttemptError,
> {
    match game::millis_at(now) {
        None => script::fail(trace, OidcAttemptError::Timestamp),
        Some(now_ms) => script::query(
            trace,
            consume_op(attempt_id, now_ms),
            |updated: Seq<Row>, trace: Trace|
                if updated.len() != 1 {
                    script::fail(trace, OidcAttemptError::Invalid)
                } else {
                    script::done(trace, ())
                },
        ),
    }
}

/// Marks a claimed attempt consumed after its callback has completed.
pub fn consume_oidc_attempt<'a>(script: &mut Script<'a>, attempt_id: &str, now: Timestamp) -> (
    consumed: Result<(), Stop<'a, OidcAttemptError>>)
    ensures
        script::ran(consumed, final(script)@, |consumed: ()| consumed) == consume_run(
            old(script)@,
            attempt_id@,
            now,
        ),
{
    let now_ms: i64 = match timestamp_ms(now) {
        Some(now_ms) => now_ms,
        None => return Err(Stop::Fail(OidcAttemptError::Timestamp)),
    };
    let updated = script.query(
        Statement::update("auth_login_attempts")
            .text("status", "CONSUMED")
            .integer("consumed_at_ms", now_ms)
            .where_text("attempt_id", attempt_id)
            .where_text("status", "CLAIMED"),
    )?;
    if updated.len() != 1 {
        return Err(Stop::Fail(OidcAttemptError::Invalid));
    }
    Ok(())
}

/// Whether an attempt can be deleted: it has expired or reached its end.
pub open spec fn is_over(status: Seq<char>, expires_ms: i64, now_ms: i64) -> bool {
    expires_ms <= now_ms || status == "CONSUMED"@ || status == "FAILED"@
}

/// Delete the attempts that are over, from `index` on.
pub open spec fn cleanup_rows_run(trace: Trace, rows: Seq<Row>, now_ms: i64, index: int) -> Run<
    (),
    OidcAttemptError,
>
    decreases rows.len() - index,
{
    if index >= rows.len() {
        script::done(trace, ())
    } else {
        match (rows[index].text_at("status"@), rows[index].integer_at("expires_at_ms"@)) {
            (Some(status), Some(expires_ms)) => if is_over(status, expires_ms, now_ms) {
                match rows[index].text_at("attempt_id"@) {
                    None => script::fail(trace, OidcAttemptError::Invalid),
                    Some(attempt_id) => script::perform(
                        trace,
                        Op::delete("auth_login_attempts"@).where_text("attempt_id"@, attempt_id),
                        |trace: Trace| cleanup_rows_run(trace, rows, now_ms, index + 1),
                    ),
                }
            } else {
                cleanup_rows_run(trace, rows, now_ms, index + 1)
            },
            _ => script::fail(trace, OidcAttemptError::Invalid),
        }
    }
}

/// Delete every attempt that is over.
pub open spec fn cleanup_run(trace: Trace, now: Timestamp) -> Run<(), OidcAttemptError> {
    match game::millis_at(now) {
        None => script::fail(trace, OidcAttemptError::Timestamp),
        Some(now_ms) => script::query(
            trace,
            Op::select("auth_login_attempts"@),
            |rows: Seq<Row>, trace: Trace| cleanup_rows_run(trace, rows, now_ms, 0),
        ),
    }
}

/// Deletes terminal and expired attempts at or before `now`.
pub fn cleanup_oidc_attempts<'a>(script: &mut Script<'a>, now: Timestamp) -> (cleaned: Result<
    (),
    Stop<'a, OidcAttemptError>,
>)
    ensures
        script::ran(cleaned, final(script)@, |cleaned: ()| cleaned) == cleanup_run(
            old(script)@,
            now,
        ),
{
    let now_ms: i64 = match timestamp_ms(now) {
        Some(now_ms) => now_ms,
        None => return Err(Stop::Fail(OidcAttemptError::Timestamp)),
    };
    let rows = script.query(Statement::select("auth_login_attempts"))?;
    let mut index: usize = 0;
    while index < rows.len()
        invariant
            index <= rows@.len(),
            cleanup_run(old(script)@, now) == cleanup_rows_run(
                script@,
                rows@,
                now_ms,
                index as int,
            ),
        decreases rows@.len() - index,
    {
        let row = &rows[index];
        let (status, expires_ms): (String, i64) = match (
            row.get_text("status"),
            row.get_integer("expires_at_ms"),
        ) {
            (Some(status), Some(expires_ms)) => (status, expires_ms),
            _ => return Err(Stop::Fail(OidcAttemptError::Invalid)),
        };
        if expires_ms <= now_ms || same_text(status.as_str(), "CONSUMED") || same_text(
            status.as_str(),
            "FAILED",
        ) {
            match row.get_text("attempt_id") {
                None => return Err(Stop::Fail(OidcAttemptError::Invalid)),
                Some(attempt_id) => script.perform(
                    Statement::delete("auth_login_attempts").where_text(
                        "attempt_id",
                        attempt_id.as_str(),
                    ),
                )?,
            }
        }
        index = index + 1;
    }
    Ok(())
}

} // verus!
