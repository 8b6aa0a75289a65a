//! External identity resolution and transactional Google account creation.
use crate::accounts::{self, insert_user};
use crate::game::{self, timestamp_ms, Timestamp};
use crate::ids::{self, id_text};
use crate::profiles::{
    self, generate_unique_handle, insert_profile, normalize_display_name,
    synchronize_google_profile, ProfileError,
};
use crate::script::{self, settle, Outcome, Run, Script, Stop, Trace};
use crate::store::{self, Op, Row, Statement, Value};
use crate::text::{self, blank, has_control, same_text};
use vstd::prelude::*;

verus! {

/// External identity failure.
#[derive(Debug, Clone, PartialEq, Eq)]
pub enum ExternalIdentityError {
    Invalid,
    Conflict,
    Malformed,
    Timestamp,
    Profile(ProfileError),
}

impl ExternalIdentityError {
    /// The error in words; an outside error is told in its own.
    pub open spec fn message_of(self) -> Seq<char> {
        match self {
            ExternalIdentityError::Invalid => "external identity is invalid"@,
            ExternalIdentityError::Conflict => "external identity conflicts with an existing account"@,
            ExternalIdentityError::Malformed => "external identity row is malformed"@,
            ExternalIdentityError::Timestamp => "external identity timestamp is outside the supported range"@,
            ExternalIdentityError::Profile(error) => error.message_of(),
        }
    }

    pub fn message(self) -> (message: String)
        ensures
            message@ == self.message_of(),
    {
        match self {
            ExternalIdentityError::Invalid => "external identity is invalid".to_owned(),
            ExternalIdentityError::Conflict => "external identity conflicts with an existing account".to_owned(),
            ExternalIdentityError::Malformed => "external identity row is malformed".to_owned(),
            ExternalIdentityError::Timestamp => "external identity timestamp is outside the supported range".to_owned(),
            ExternalIdentityError::Profile(error) => error.message(),
        }
    }
}

/// Identity and profile claims that a provider boundary has verified.
#[derive(Debug, Clone, PartialEq, Eq)]
pub struct VerifiedExternalIdentity {
    pub provider: String,
    pub issuer: String,
    pub subject: String,
    pub display_name: String,
    pub picture_url: Option<String>,
}

/// The mathematical content of a [`VerifiedExternalIdentity`].
#[verifier::ext_equal]
pub struct IdentityView {
    pub provider: Seq<char>,
    pub issuer: Seq<char>,
    pub subject: Seq<char>,
    pub display_name: Seq<char>,
    pub picture_url: Option<Seq<char>>,
}

impl View for VerifiedExternalIdentity {
    type V = IdentityView;

    open spec fn view(&self) -> IdentityView {
        IdentityView {
            provider: self.provider@,
            issuer: self.issuer@,
            subject: self.subject@,
            display_name: self.display_name@,
            picture_url: text::opt_view(self.picture_url),
        }
    }
}

/// Whether a text can be part of an identity key: not blank, and without control codes.
pub open spec fn valid_key(key: Seq<char>) -> bool {
    !text::is_blank(key) && !text::holds_control(key)
}

/// Whether an identity is one that accounts can be linked to.
pub open spec fn valid_identity(identity: IdentityView) -> bool {
    identity.provider == "GOOGLE"@ && valid_key(identity.issuer) && valid_key(identity.subject)
}

impl VerifiedExternalIdentity {
    /// Makes a Google identity of claims whose protocol has been validated.
    pub fn google(
        issuer: String,
        subject: String,
        display_name: String,
        picture_url: Option<String>,
    ) -> (identity: Result<VerifiedExternalIdentity, ExternalIdentityError>)
        ensures
            match identity {
                Ok(identity) => {
                    &&& valid_key(issuer@) && valid_key(subject@)
                    &&& identity@ == (IdentityView {
                        provider: "GOOGLE"@,
                        issuer: issuer@,
                        subject: subject@,
                        display_name: display_name@,
                        picture_url: text::opt_view(picture_url),
                    })
                    &&& valid_identity(identity@)
                },
                Err(error) => error == ExternalIdentityError::Invalid && !(valid_key(issuer@)
                    && valid_key(subject@)),
            },
    {
        if blank(issuer.as_str()) || blank(subject.as_str()) || has_control(issuer.as_str())
            || has_control(subject.as_str()) {
            return Err(ExternalIdentityError::Invalid);
        }
        Ok(
            VerifiedExternalIdentity {
                provider: "GOOGLE".to_owned(),
                issuer,
                subject,
                display_name,
                picture_url,
            },
        )
    }
}

/// Checks an identity.
pub fn validate_identity(identity: &VerifiedExternalIdentity) -> (checked: Result<
    (),
    ExternalIdentityError,
>)
    ensures
        checked == if valid_identity(identity@) {
            Ok::<(), ExternalIdentityError>(())
        } else {
            Err(ExternalIdentityError::Invalid)
        },
{
    if !same_text(identity.provider.as_str(), "GOOGLE") || blank(identity.issuer.as_str())
        || blank(identity.subject.as_str()) || has_control(identity.issuer.as_str())
        || has_control(identity.subject.as_str()) {
        return Err(ExternalIdentityError::Invalid);
    }
    Ok(())
}

/// The account of an external identity, and whether it was just created.
#[derive(Debug, Clone, PartialEq, Eq)]
pub struct ResolvedExternalAccount {
    pub user_id: String,
    pub created: bool,
}

fn profile_stop<'a>(stop: Stop<'a, ProfileError>) -> (wrapped: Stop<'a, ExternalIdentityError>)
    ensures
        wrapped == (match stop {
            Stop::Wait(request) => Stop::Wait(request),
            Stop::Failed(number) => Stop::Failed(number),
            Stop::Mismatch(number) => Stop::Mismatch(number),
            Stop::Fail(error) => Stop::Fail(ExternalIdentityError::Profile(error)),
        }),
{
    match stop {
        Stop::Wait(request) => Stop::Wait(request),
        Stop::Failed(number) => Stop::Failed(number),
        Stop::Mismatch(number) => Stop::Mismatch(number),
        Stop::Fail(error) => Stop::Fail(ExternalIdentityError::Profile(error)),
    }
}

/// Find the user of an issuer and subject.
pub open spec fn user_for_identity_run(trace: Trace, issuer: Seq<char>, subject: Seq<char>) -> Run<
    Option<Seq<char>>,
    ExternalIdentityError,
> {
    script::query(
        trace,
        Op::select("external_identities"@).where_text("issuer"@, issuer).where_text(
            "subject"@,
            subject,
        ),
        |rows: Seq<Row>, trace: Trace|
            if rows.len() == 0 {
                script::done(trace, None)
            } else {
                match rows[0].text_at("user_id"@) {
                    Some(user_id) => script::done(trace, Some(user_id)),
                    None => script::fail(trace, ExternalIdentityError::Malformed),
                }
            },
    )
}

/// Returns the user linked to one issuer and subject.
pub fn user_for_external_identity<'a>(script: &mut Script<'a>, issuer: &str, subject: &str) -> (
    found: Result<Option<String>, Stop<'a, ExternalIdentityError>>)
    ensures
        script::ran(found, final(script)@, |user: Option<String>| text::opt_view(user))
            == user_for_identity_run(old(script)@, issuer@, subject@),
{
    let rows = script.query(
        Statement::select("external_identities").where_text("issuer", issuer).where_text(
            "subject",
            subject,
        ),
    )?;
    if rows.len() == 0 {
        return Ok(None);
    }
    match rows[0].get_text("user_id") {
        Some(user_id) => Ok(Some(user_id)),
        None => Err(Stop::Fail(ExternalIdentityError::Malformed)),
    }
}

pub open spec fn refresh_identity_op(identity: IdentityView, now_ms: i64) -> Op {
    Op::update("external_identities"@)
        .text("provider_display_name"@, identity.display_name)
        .value("provider_picture_url"@, store::datum_of_option(identity.picture_url))
        .integer("last_authenticated_at_ms"@, now_ms as int)
        .where_text("issuer"@, identity.issuer)
        .where_text("subject"@, identity.subject)
}

pub open spec fn insert_identity_op(
    id: Seq<char>,
    identity: IdentityView,
    user_id: Seq<char>,
    now_ms: i64,
) -> Op {
    Op::insert("external_identities"@)
        .text("external_identity_id"@, id)
        .text("provider"@, identity.provider)
        .text("issuer"@, identity.issuer)
        .text("subject"@, identity.subject)
        .text("user_id"@, user_id)
        .text("provider_display_name"@, identity.display_name)
        .value("provider_picture_url"@, store::datum_of_option(identity.picture_url))
        .integer("created_at_ms"@, now_ms as int)
        .integer("last_authenticated_at_ms"@, now_ms as int)
}

fn insert_identity(
    id: &str,
    identity: &VerifiedExternalIdentity,
    user_id: &str,
    now_ms: i64,
) -> (statement: Statement)
    ensures
        statement@ == insert_identity_op(id@, identity@, user_id@, now_ms),
{
    Statement::insert("external_identities")
        .text("external_identity_id", id)
        .text("provider", identity.provider.as_str())
        .text("issuer", identity.issuer.as_str())
        .text("subject", identity.subject.as_str())
        .text("user_id", user_id)
        .text("provider_display_name", identity.display_name.as_str())
        .value("provider_picture_url", Value::optional_text(&identity.picture_url))
        .integer("created_at_ms", now_ms)
        .integer("last_authenticated_at_ms", now_ms)
}

/// Refresh the profile of a known identity.
pub open spec fn refresh_run(
    trace: Trace,
    user_id: Seq<char>,
    identity: IdentityView,
    now: Timestamp,
) -> Run<(Seq<char>, bool), ExternalIdentityError> {
    script::chain(
        script::lift(
            profiles::synchronize_run(
                trace,
                user_id,
                identity.display_name,
                identity.picture_url,
                now,
            ),
            |error: ProfileError| ExternalIdentityError::Profile(error),
        ),
        |synchronized: (), trace: Trace|
            match game::millis_at(now) {
                None => script::fail(trace, ExternalIdentityError::Timestamp),
                Some(now_ms) => script::perform(
                    trace,
                    refresh_identity_op(identity, now_ms),
                    |trace: Trace| script::done(trace, (user_id, false)),
                ),
            },
    )
}

fn refresh<'a>(
    script: &mut Script<'a>,
    user_id: String,
    identity: &VerifiedExternalIdentity,
    now: Timestamp,
) -> (refreshed: Result<ResolvedExternalAccount, Stop<'a, ExternalIdentityError>>)
    ensures
        script::ran(
            refreshed,
            final(script)@,
            |account: ResolvedExternalAccount| (account.user_id@, account.created),
        ) == refresh_run(old(script)@, user_id@, identity@, now),
{
    match synchronize_google_profile(
        script,
        user_id.as_str(),
        identity.display_name.as_str(),
        &identity.picture_url,
        now,
    ) {
        Ok(()) => {},
        Err(stop) => return Err(profile_stop(stop)),
    }
    let now_ms: i64 = match timestamp_ms(now) {
        Some(now_ms) => now_ms,
        None => return Err(Stop::Fail(ExternalIdentityError::Timestamp)),
    };
    script.perform(
        Statement::update("external_identities")
            .text("provider_display_name", identity.display_name.as_str())
            .value("provider_picture_url", Value::optional_text(&identity.picture_url))
            .integer("last_authenticated_at_ms", now_ms)
            .where_text("issuer", identity.issuer.as_str())
            .where_text("subject", identity.subject.as_str()),
    )?;
    Ok(ResolvedExternalAccount { user_id, created: false })
}

/// Store user, profile and identity.
pub open spec fn store_account_run(
    trace: Trace,
    user_id: Seq<char>,
    handle: Seq<char>,
    display_name: Seq<char>,
    identity: IdentityView,
    now_ms: i64,
) -> Run<(), ExternalIdentityError> {
    script::perform(
        trace,
        accounts::insert_user_op(user_id, handle, handle, now_ms),
        |trace: Trace|
            script::perform(
                trace,
                profiles::insert_profile_op(user_id, display_name, identity.picture_url, now_ms),
                |trace: Trace|
                    script::draw(
                        trace,
                        1,
                        |drawn: Seq<u128>, trace: Trace|
                            script::perform(
                                trace,
                                insert_identity_op(
                                    ids::id_text_of(drawn[0]),
                                    identity,
                                    user_id,
                                    now_ms,
                                ),
                                |trace: Trace| script::done(trace, ()),
                            ),
                    ),
            ),
    )
}

fn store_account<'a>(
    script: &mut Script<'a>,
    user_id: &str,
    handle: &str,
    display_name: &str,
    identity: &VerifiedExternalIdentity,
    now_ms: i64,
) -> (stored: Result<(), Stop<'a, ExternalIdentityError>>)
    ensures
        script::ran(stored, final(script)@, |stored: ()| stored) == store_account_run(
            old(script)@,
            user_id@,
            handle@,
            display_name@,
            identity@,
            now_ms,
        ),
{
    script.perform(insert_user(user_id, handle, handle, now_ms))?;
    script.perform(insert_profile(user_id, display_name, &identity.picture_url, now_ms))?;
    let drawn = script.draw(1)?;
    script.perform(insert_identity(id_text(drawn[0]).as_str(), identity, user_id, now_ms))
}

/// Create the account, or where the store refuses and another login has linked the identity
/// meanwhile, take that login's account.
pub open spec fn create_account_run(
    trace: Trace,
    user_id: Seq<char>,
    handle: Seq<char>,
    display_name: Seq<char>,
    identity: IdentityView,
    now_ms: i64,
) -> Run<(Seq<char>, bool), ExternalIdentityError> {
    script::perform(
        trace,
        Op::begin(),
        |trace: Trace|
            {
                let stored = store_account_run(
                    trace,
                    user_id,
                    handle,
                    display_name,
                    identity,
                    now_ms,
                );
                match stored.outcome {
                    Outcome::Failed(number) => script::perform(
                        stored.trace,
                        Op::rollback(),
                        |trace: Trace|
                            script::chain(
                                user_for_identity_run(trace, identity.issuer, identity.subject),
                                |winner: Option<Seq<char>>, trace: Trace|
                                    match winner {
                                        Some(winner) => script::done(trace, (winner, false)),
                                        None => Run {
                                            outcome: Outcome::Failed(number),
                                            trace,
                                        },
                                    },
                            ),
                    ),
                    _ => script::chain(
                        stored,
                        |stored: (), trace: Trace|
                            script::perform(
                                trace,
                                Op::commit(),
                                |trace: Trace| script::done(trace, (user_id, true)),
                            ),
                    ),
                }
            },
    )
}

fn create_account<'a>(
    script: &mut Script<'a>,
    user_id: String,
    handle: &str,
    display_name: &str,
    identity: &VerifiedExternalIdentity,
    now_ms: i64,
) -> (created: Result<ResolvedExternalAccount, Stop<'a, ExternalIdentityError>>)
    ensures
        script::ran(
            created,
            final(script)@,
            |account: ResolvedExternalAccount| (account.user_id@, account.created),
        ) == create_account_run(
            old(script)@,
            user_id@,
            handle@,
            display_name@,
            identity@,
            now_ms,
        ),
{
    script.perform(Statement::begin())?;
    match store_account(script, user_id.as_str(), handle, display_name, identity, now_ms) {
        Err(Stop::Failed(number)) => {
            script.perform(Statement::rollback())?;
            match user_for_external_identity(
                script,
                identity.issuer.as_str(),
                identity.subject.as_str(),
            )? {
                Some(winner) => Ok(ResolvedExternalAccount { user_id: winner, created: false }),
                None => Err(Stop::Failed(number)),
            }
        },
        Err(stop) => Err(stop),
        Ok(()) => {
            script.perform(Statement::commit())?;
            Ok(ResolvedExternalAccount { user_id, created: true })
        },
    }
}

/// Resolve an identity to its account, creating the account where there is none.
pub open spec fn resolve_run(trace: Trace, identity: IdentityView, now: Timestamp) -> Run<
    (Seq<char>, bool),
    ExternalIdentityError,
> {
    if !valid_identity(identity) {
        script::fail(trace, ExternalIdentityError::Invalid)
    } else {
        script::chain(
            user_for_identity_run(trace, identity.issuer, identity.subject),
            |known: Option<Seq<char>>, trace: Trace|
                match known {
                    Some(user_id) => refresh_run(trace, user_id, identity, now),
                    None => introduce_run(trace, identity, now),
                },
        )
    }
}

/// Create the account of an identity that has none.
pub open spec fn introduce_run(trace: Trace, identity: IdentityView, now: Timestamp) -> Run<
    (Seq<char>, bool),
    ExternalIdentityError,
> {
    script::chain(
        script::lift(
            profiles::try_handle_run(trace, identity.display_name, 8),
            |error: ProfileError| ExternalIdentityError::Profile(error),
        ),
        |handle: Seq<char>, trace: Trace|
            match profiles::normalized_display_name(identity.display_name) {
                None => script::fail(
                    trace,
                    ExternalIdentityError::Profile(ProfileError::InvalidDisplayName),
                ),
                Some(display_name) => script::draw(
                    trace,
                    1,
                    |drawn: Seq<u128>, trace: Trace|
                        match game::millis_at(now) {
                            None => script::fail(trace, ExternalIdentityError::Timestamp),
                            Some(now_ms) => create_account_run(
                                trace,
                                ids::id_text_of(drawn[0]),
                                handle,
                                display_name,
                                identity,
                                now_ms,
                            ),
                        },
                ),
            },
    )
}

/// Resolves an external identity, creating its user and profile transactionally when absent.
///
/// A known identity keeps its user and handle while Google-owned profile fields are synchronized.
pub fn resolve_or_create_external_account<'a>(
    script: &mut Script<'a>,
    identity: &VerifiedExternalIdentity,
    now: Timestamp,
) -> (resolved: Result<ResolvedExternalAccount, Stop<'a, ExternalIdentityError>>)
    ensures
        script::ran(
            resolved,
            final(script)@,
            |account: ResolvedExternalAccount| (account.user_id@, account.created),
        ) == resolve_run(old(script)@, identity@, now),
{
    if validate_identity(identity).is_err() {
        return Err(Stop::Fail(ExternalIdentityError::Invalid));
    }
    if let Some(user_id) = user_for_external_identity(
        script,
        identity.issuer.as_str(),
        identity.subject.as_str(),
    )? {
        return refresh(script, user_id, identity, now);
    }
    let handle = match generate_unique_handle(script, identity.display_name.as_str()) {
        Ok(handle) => handle,
        Err(stop) => return Err(profile_stop(stop)),
    };
    let display_name = match normalize_display_name(identity.display_name.as_str()) {
        Ok(display_name) => display_name,
        Err(error) => return Err(Stop::Fail(ExternalIdentityError::Profile(error))),
    };
    let user_id: String = id_text(script.draw(1)?[0]);
    let now_ms: i64 = match timestamp_ms(now) {
        Some(now_ms) => now_ms,
        None => return Err(Stop::Fail(ExternalIdentityError::Timestamp)),
    };
    create_account(
        script,
        user_id,
        handle.as_str(),
        display_name.as_str(),
        identity,
        now_ms,
    )
}

/// Link an identity that nobody has to a user who has none of its issuer.
pub open spec fn link_run(
    trace: Trace,
    user_id: Seq<char>,
    identity: IdentityView,
    now: Timestamp,
) -> Run<(), ExternalIdentityError> {
    if !valid_identity(identity) {
        script::fail(trace, ExternalIdentityError::Invalid)
    } else {
        script::chain(
            user_for_identity_run(trace, identity.issuer, identity.subject),
            |known: Option<Seq<char>>, trace: Trace|
                if known is Some {
                    script::fail(trace, ExternalIdentityError::Conflict)
                } else {
                    script::query(
                        trace,
                        Op::select("external_identities"@).where_text(
                            "user_id"@,
                            user_id,
                        ).where_text("issuer"@, identity.issuer),
                        |linked: Seq<Row>, trace: Trace|
                            if linked.len() > 0 {
                                script::fail(trace, ExternalIdentityError::Conflict)
                            } else {
                                store_link_run(trace, user_id, identity, now)
                            },
                    )
                },
        )
    }
}

pub open spec fn store_link_run(
    trace: Trace,
    user_id: Seq<char>,
    identity: IdentityView,
    now: Timestamp,
) -> Run<(), ExternalIdentityError> {
    match (
        profiles::normalized_display_name(identity.display_name),
        game::millis_at(now),
    ) {
        (None, _) => script::fail(
            trace,
            ExternalIdentityError::Profile(ProfileError::InvalidDisplayName),
        ),
        (_, None) => script::fail(trace, ExternalIdentityError::Timestamp),
        (Some(display_name), Some(now_ms)) => script::perform(
            trace,
            profiles::insert_profile_op(user_id, display_name, identity.picture_url, now_ms),
            |trace: Trace|
                script::draw(
                    trace,
                    1,
                    |drawn: Seq<u128>, trace: Trace|
                        script::perform(
                            trace,
                            insert_identity_op(
                                ids::id_text_of(drawn[0]),
                                identity,
                                user_id,
                                now_ms,
                            ),
                            |trace: Trace| script::done(trace, ()),
                        ),
                ),
        ),
    }
}

/// Links an identity inside the caller's transaction.
pub fn link_external_identity_in_database<'a>(
    script: &mut Script<'a>,
    user_id: &str,
    identity: &VerifiedExternalIdentity,
    now: Timestamp,
) -> (linked: Result<(), Stop<'a, ExternalIdentityError>>)
    ensures
        script::ran(linked, final(script)@, |linked: ()| linked) == link_run(
            old(script)@,
            user_id@,
            identity@,
            now,
        ),
{
    if validate_identity(identity).is_err() {
        return Err(Stop::Fail(ExternalIdentityError::Invalid));
    }
    let known = user_for_external_identity(
        script,
        identity.issuer.as_str(),
        identity.subject.as_str(),
    )?;
    if known.is_some() {
        return Err(Stop::Fail(ExternalIdentityError::Conflict));
    }
    let linked = script.query(
        Statement::select("external_identities").where_text("user_id", user_id).where_text(
            "issuer",
            identity.issuer.as_str(),
        ),
    )?;
    if linked.len() > 0 {
        return Err(Stop::Fail(ExternalIdentityError::Conflict));
    }
    let display_name = match normalize_display_name(identity.display_name.as_str()) {
        Ok(display_name) => display_name,
        Err(error) => return Err(Stop::Fail(ExternalIdentityError::Profile(error))),
    };
    let now_ms: i64 = match timestamp_ms(now) {
        Some(now_ms) => now_ms,
        None => return Err(Stop::Fail(ExternalIdentityError::Timestamp)),
    };
    script.perform(insert_profile(user_id, display_name.as_str(), &identity.picture_url, now_ms))?;
    let drawn = script.draw(1)?;
    script.perform(insert_identity(id_text(drawn[0]).as_str(), identity, user_id, now_ms))
}

/// Links a verified identity to an existing password-proven user in one transaction.
pub fn link_external_identity<'a>(
    script: &mut Script<'a>,
    user_id: &str,
    identity: &VerifiedExternalIdentity,
    now: Timestamp,
) -> (linked: Result<(), Stop<'a, ExternalIdentityError>>)
    ensures
        script::ran(linked, final(script)@, |linked: ()| linked) == script::transaction(
            old(script)@,
            |trace: Trace| link_run(trace, user_id@, identity@, now),
        ),
{
    script.perform(Statement::begin())?;
    let linked = link_external_identity_in_database(script, user_id, identity, now);
    settle(script, linked)
}

} // verus!
