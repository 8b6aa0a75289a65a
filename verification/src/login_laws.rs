//! What a login by an external identity does: whose session it is, and what it refreshes.
use crate::attempt_laws;
use crate::dashboard_laws;
use crate::external_identities::{self, ExternalIdentityError, IdentityView};
use crate::game::{self, Span, Timestamp};
use crate::google_accounts::{self, GoogleAccountWorkflowError};
use crate::identity_laws;
use crate::model::{self, Record, Store, Workflow};
use crate::oidc::{self, ClientView, GoogleOidcError, KeysView, OidcAnswer};
use crate::oidc_attempts::ClaimedView;
use crate::person_laws;
use crate::profile_laws;
use crate::profiles::{self, AvatarSource, ProfileError, ProfileFieldSource, ProfileView};
use crate::script::{self, Ask, Outcome, Reply, Run, Trace};
use crate::stages;
use crate::store::{Datum, Op, Relation, Row};
use crate::text;
use vstd::prelude::*;

verus! {

/// The links of an identity.
pub open spec fn links(store: Store, identity: IdentityView) -> Seq<Record> {
    model::found(
        store.rows("external_identities"@),
        seq![
            ("issuer"@, Relation::Equal, Datum::Text(identity.issuer)),
            ("subject"@, Relation::Equal, Datum::Text(identity.subject)),
        ],
    )
}

/// Whether a profile's row follows the provider in a field.
pub open spec fn follows(record: Record, source: Seq<char>) -> bool {
    model::datum_in(record, source) == Datum::Text("GOOGLE"@)
}

/// What a login of a known identity leaves of a profile's row: the provider's name and picture where
/// the stored profile follows the provider, and what was there otherwise.
pub open spec fn profile_refreshed(
    stored: Record,
    before: Record,
    after: Record,
    name: Seq<char>,
    picture: Option<Seq<char>>,
) -> bool {
    &&& model::datum_in(after, "display_name"@) == (if follows(stored, "display_name_source"@) {
        Datum::Text(name)
    } else {
        model::datum_in(before, "display_name"@)
    })
    &&& model::datum_in(after, "provider_picture_url"@) == (if follows(stored, "avatar_source"@) {
        attempt_laws::optional(picture)
    } else {
        model::datum_in(before, "provider_picture_url"@)
    })
    &&& model::datum_in(after, "display_name_source"@) == model::datum_in(
        before,
        "display_name_source"@,
    )
    &&& model::datum_in(after, "avatar_source"@) == model::datum_in(before, "avatar_source"@)
}

proof fn sources_are_told(record: Record, row: Row, profile: ProfileView)
    requires
        model::shows(row, record),
        profiles::profile_row(row) == Some(profile),
    ensures
        profile.display_name_source == ProfileFieldSource::Google <==> follows(
            record,
            "display_name_source"@,
        ),
        profile.avatar_source == AvatarSource::Google <==> follows(record, "avatar_source"@),
{
    model::shown_values(row, record, "display_name_source"@);
    model::shown_values(row, record, "avatar_source"@);
    reveal_strlit("GOOGLE");
    reveal_strlit("CUSTOM");
    reveal_strlit("CUSTOM_NONE");
    assert("GOOGLE"@.len() == 6 && "GOOGLE"@[0] == 'G');
    assert("CUSTOM"@.len() == 6 && "CUSTOM"@[0] == 'C');
    assert("CUSTOM_NONE"@.len() == 11);
}

/// A known identity that logs in again is the user it is linked to: what the provider says of it is
/// refreshed, in the profile only where the profile follows the provider, and nothing else is
/// written.
pub proof fn known_identities_are_refreshed(
    identity: IdentityView,
    now: Timestamp,
    replies: Seq<Reply>,
    store: Store,
    resolved: (Seq<char>, bool),
)
    requires
        links(store, identity).len() > 0,
        model::served(identity_laws::resolving(identity, now), replies, store),
        model::ending(identity_laws::resolving(identity, now), replies) == Outcome::<
            (Seq<char>, bool),
            ExternalIdentityError,
        >::Done(resolved),
    ensures
        model::datum_in(links(store, identity)[0], "user_id"@) == Datum::Text(resolved.0),
        !resolved.1,
        game::millis_at(now) is Some,
        ({
            let stored = person_laws::rows_of_user(store, "user_profiles"@, resolved.0);
            let after = model::store_after(
                identity_laws::resolving(identity, now),
                replies,
                store,
            );
            let profiles = store.rows("user_profiles"@);
            let changed = after.rows("user_profiles"@);
            &&& stored.len() > 0
            &&& changed.len() == profiles.len()
            &&& forall|i: int|
                0 <= i < profiles.len() ==> (if profile_laws::of_user(profiles[i], resolved.0) {
                    profile_refreshed(
                        stored[0],
                        profiles[i],
                        #[trigger] changed[i],
                        profiles::normalized_display_name(identity.display_name)->0,
                        identity.picture_url,
                    )
                } else {
                    changed[i] == profiles[i]
                })
            &&& after.rows("external_identities"@) == model::updated(
                store.rows("external_identities"@),
                seq![
                    ("issuer"@, Relation::Equal, Datum::Text(identity.issuer)),
                    ("subject"@, Relation::Equal, Datum::Text(identity.subject)),
                ],
                seq![
                    ("provider_display_name"@, Datum::Text(identity.display_name)),
                    ("provider_picture_url"@, attempt_laws::optional(identity.picture_url)),
                    (
                        "last_authenticated_at_ms"@,
                        Datum::Integer(game::millis_at(now)->0 as int),
                    ),
                ],
            )
            &&& forall|table: Seq<char>|
                table != "user_profiles"@ && table != "external_identities"@
                    ==> #[trigger] after.rows(table) == store.rows(table)
        }),
{
    let fits = stages::anything();
    let stage = identity_laws::resolving(identity, now);
    stages::whole_is_underway(stage, replies, store, fits);
    stages::whole_leaves(stage, replies, store);
    assert(stage(Trace { replies, at: 0 }).outcome is Done);
    let lookup = Op::select("external_identities"@).where_text(
        "issuer"@,
        identity.issuer,
    ).where_text("subject"@, identity.subject);
    let found = |rows: Seq<Row>, trace: Trace|
        if rows.len() == 0 {
            external_identities::introduce_run(trace, identity, now)
        } else {
            match rows[0].text_at("user_id"@) {
                Some(user) => external_identities::refresh_run(trace, user, identity, now),
                None => script::fail(trace, ExternalIdentityError::Malformed),
            }
        };
    assert forall|trace: Trace| #[trigger] stage(trace) == script::query(trace, lookup, found) by {}
    let rows = stages::asks_store(stage, lookup, found, replies, 0, store, fits);
    let filters = seq![
        ("issuer"@, Relation::Equal, Datum::Text(identity.issuer)),
        ("subject"@, Relation::Equal, Datum::Text(identity.subject)),
    ];
    dashboard_laws::filtered(lookup, filters, store);
    model::shown_values(rows[0], links(store, identity)[0], "user_id"@);
    let second: Workflow<(Seq<char>, bool), ExternalIdentityError> = |trace: Trace|
        found(rows, trace);
    assert(second(Trace { replies, at: 1 }).outcome is Done);
    let user = rows[0].text_at("user_id"@)->0;
    let profile_op = Op::select("user_profiles"@).where_text("user_id"@, user);
    let finish = |done: Seq<Row>, trace: Trace|
        script::done::<(Seq<char>, bool), ExternalIdentityError>(trace, (user, false));
    let refresh = |done: Seq<Row>, trace: Trace|
        match game::millis_at(now) {
            None => script::fail(trace, ExternalIdentityError::Timestamp),
            Some(now_ms) => script::query(
                trace,
                external_identities::refresh_identity_op(identity, now_ms),
                finish,
            ),
        };
    let name = profiles::normalized_display_name(identity.display_name);
    let sync = |profile: ProfileView, now_ms: i64|
        profiles::synchronize_op(profile, user, name->0, identity.picture_url, now_ms);
    let loaded = |held: Seq<Row>, trace: Trace|
        if held.len() == 0 {
            script::fail(trace, ExternalIdentityError::Profile(ProfileError::Malformed))
        } else {
            match (profiles::profile_row(held[0]), game::millis_at(now)) {
                (None, _) => script::fail(
                    trace,
                    ExternalIdentityError::Profile(ProfileError::Malformed),
                ),
                (_, None) => script::fail(
                    trace,
                    ExternalIdentityError::Profile(ProfileError::Timestamp),
                ),
                (Some(profile), Some(now_ms)) => if profile.display_name_source
                    == ProfileFieldSource::Google && name is None {
                    script::fail(
                        trace,
                        ExternalIdentityError::Profile(ProfileError::InvalidDisplayName),
                    )
                } else {
                    script::query(trace, sync(profile, now_ms), refresh)
                },
            }
        };
    assert forall|trace: Trace| #[trigger] second(trace) == script::query(
        trace,
        profile_op,
        loaded,
    ) by {
        assert(second(trace) == external_identities::refresh_run(trace, user, identity, now));
    }
    let held = stages::asks_store(second, profile_op, loaded, replies, 1, store, fits);
    dashboard_laws::filtered(
        profile_op,
        seq![("user_id"@, Relation::Equal, Datum::Text(user))],
        store,
    );
    let third: Workflow<(Seq<char>, bool), ExternalIdentityError> = |trace: Trace|
        loaded(held, trace);
    assert(third(Trace { replies, at: 2 }).outcome is Done);
    let profile = profiles::profile_row(held[0])->0;
    let now_ms = game::millis_at(now)->0;
    let stored = person_laws::rows_of_user(store, "user_profiles"@, user);
    sources_are_told(stored[0], held[0], profile);
    let op = sync(profile, now_ms);
    let synced = stages::asks_store(third, op, refresh, replies, 2, store, fits);
    let middle = model::executed(store, op).0;
    let fourth: Workflow<(Seq<char>, bool), ExternalIdentityError> = |trace: Trace|
        refresh(synced, trace);
    assert(fourth(Trace { replies, at: 3 }).outcome is Done);
    let last_op = external_identities::refresh_identity_op(identity, now_ms);
    let done = stages::asks_store(fourth, last_op, finish, replies, 3, middle, fits);
    let last: Workflow<(Seq<char>, bool), ExternalIdentityError> = |trace: Trace|
        finish(done, trace);
    let after = model::executed(middle, last_op).0;
    stages::nothing_more(last, replies, 4, after, replies.len() as int);
    reveal_strlit("user_profiles");
    reveal_strlit("external_identities");
    assert("user_profiles"@.len() == 13);
    assert("external_identities"@.len() == 19);
    let profiles = store.rows("user_profiles"@);
    profile_laws::provided_fields_are_synchronized(
        profile,
        user,
        name->0,
        identity.picture_url,
        now_ms,
        stored[0],
    );
    assert(middle.rows("user_profiles"@) == model::updated(profiles, op.filters, op.values));
    assert(after.rows("user_profiles"@) == middle.rows("user_profiles"@));
    assert forall|i: int| 0 <= i < profiles.len() implies (if profile_laws::of_user(
        profiles[i],
        user,
    ) {
        profile_refreshed(
            stored[0],
            profiles[i],
            #[trigger] after.rows("user_profiles"@)[i],
            name->0,
            identity.picture_url,
        )
    } else {
        after.rows("user_profiles"@)[i] == profiles[i]
    }) by {
        profile_laws::meets_user(profiles[i], user);
        profile_laws::provided_fields_are_synchronized(
            profile,
            user,
            name->0,
            identity.picture_url,
            now_ms,
            profiles[i],
        );
    }
    crate::row_laws::logins_refresh_their_identity(identity, now_ms);
}

/// A login issues a session to the user to whom its identity resolves, from that moment on and for
/// the lifetime that was asked for, and answers with that session's token.
pub proof fn logins_issue_a_session(
    trace: Trace,
    identity: IdentityView,
    now: Timestamp,
    lifetime: Span,
)
    ensures
        ({
            let resolved = external_identities::resolve_run(trace, identity, now);
            let run = google_accounts::login_run(trace, identity, now, lifetime);
            resolved.outcome matches Outcome::Done(account) ==> (if resolved.trace.spent() {
                run.outcome == Outcome::<
                    (Seq<char>, Seq<char>),
                    GoogleAccountWorkflowError,
                >::Wait(Ask::IssueSession(account.0, now, lifetime))
            } else {
                match resolved.trace.reply() {
                    Reply::Text(token) => run.outcome == Outcome::<
                        (Seq<char>, Seq<char>),
                        GoogleAccountWorkflowError,
                    >::Done((account.0, token@)),
                    _ => !(run.outcome is Done),
                }
            })
        }),
        google_accounts::login_run(trace, identity, now, lifetime).outcome is Done
            ==> external_identities::resolve_run(trace, identity, now).outcome is Done,
{
}

/// A migration issues a session to the user who migrates, from that moment on and for the lifetime
/// that was asked for.
pub proof fn migrations_issue_a_session(
    trace: Trace,
    user_id: Seq<char>,
    identity: IdentityView,
    now: Timestamp,
    lifetime: Span,
)
    requires
        0 <= trace.at,
    ensures
        ({
            let run = google_accounts::migrate_run(trace, user_id, identity, now, lifetime);
            &&& run.outcome matches Outcome::Wait(Ask::IssueSession(user, from, span)) ==> user
                == user_id && from == now && span == lifetime
            &&& run.outcome matches Outcome::Done(token) ==> external_identities::link_run(
                trace,
                user_id,
                identity,
                now,
            ).outcome is Done && (exists|at: int|
                0 <= at < trace.replies.len() && (#[trigger] trace.replies[at] matches Reply::Text(
                    text,
                ) && text@ == token))
        }),
{
    let linked = external_identities::link_run(trace, user_id, identity, now);
    let run = google_accounts::migrate_run(trace, user_id, identity, now, lifetime);
    if let Outcome::Done(token) = run.outcome {
        let at = linked.trace.at + 2;
        assert(trace.replies == linked.trace.replies);
        assert(0 <= at < trace.replies.len());
        assert(trace.replies[at] matches Reply::Text(text) && text@ == token);
    }
}

/// An identity that a token stands for is the subject of claims that were verified for this client:
/// claims of another party, or for several clients without naming this one, are refused. It goes by
/// the claimed name, or by a stand-in where none is claimed.
pub proof fn tokens_stand_for_their_subject(
    client: ClientView,
    client_secret: Seq<char>,
    trusted: KeysView,
    token: Seq<char>,
    nonce: Seq<char>,
    identity: IdentityView,
)
    requires
        oidc::token_identity(client, client_secret, trusted, token, nonce) == Some(identity),
    ensures
        0 <= trusted.now,
        oidc::verified_claims_of(
            token,
            trusted.keys,
            trusted.algorithms,
            client.issuer,
            client.client_id,
            client_secret,
            nonce,
            trusted.now,
        ) matches Some(claims) && identity.subject == claims.subject && identity.picture_url
            == claims.picture && identity.display_name == (match claims.name {
            Some(name) => name,
            None => "Player"@,
        }) && (match claims.authorized_party {
            Some(party) => party == client.client_id,
            None => claims.audience_count <= 1,
        }),
        identity.issuer == client.issuer,
        identity.provider == "GOOGLE"@,
{
}

/// A code is exchanged with the secret of the attempt, and gives the identity of a token that bears
/// the attempt's nonce and was verified with the provider's keys: the known ones, or else fresh ones.
pub proof fn exchanged_codes_give_their_identity(
    trace: Trace,
    client: ClientView,
    client_secret: Seq<char>,
    code: Seq<char>,
    attempt: ClaimedView,
)
    ensures
        ({
            let run = oidc::exchange_run(trace, client, client_secret, code, attempt);
            &&& trace.spent() && !text::is_blank(code) ==> run.outcome == Outcome::<
                IdentityView,
                GoogleOidcError,
            >::Wait(Ask::ExchangeCode(code, attempt.pkce_verifier))
            &&& run.outcome matches Outcome::Done(identity) ==> !text::is_blank(code) && (
            oidc::reply_token(trace.reply()) matches Some(OidcAnswer::Given(token)) && exists|
                trusted: KeysView,
            | #[trigger]
                oidc::token_identity(client, client_secret, trusted, token, attempt.nonce) == Some(
                    identity,
                ))
            &&& run.outcome matches Outcome::Wait(Ask::FindKeys(fresh)) ==> (fresh <==> trace.at + 2
                == run.trace.at)
        }),
{
    let run = oidc::exchange_run(trace, client, client_secret, code, attempt);
    if let Outcome::Done(identity) = run.outcome {
        let token = oidc::reply_token(trace.reply())->0->Given_0;
        let second = trace.next();
        let known = oidc::reply_keys(second.reply())->0->Given_0;
        let fresh = oidc::reply_keys(second.next().reply())->0->Given_0;
        if oidc::token_identity(client, client_secret, known, token, attempt.nonce) == Some(
            identity,
        ) {
        } else {
            assert(oidc::token_identity(client, client_secret, fresh, token, attempt.nonce) == Some(
                identity,
            ));
        }
    }
}

/// A token is accepted that was issued within the last ten minutes, or at most five minutes ahead of
/// this clock.
pub proof fn fresh_tokens_are_accepted(issued: i64, now: i64)
    requires
        i64::MIN + 10 * 60 <= now <= i64::MAX - 5 * 60,
    ensures
        oidc::issue_time_accepted(issued, now) <==> now - 10 * 60 <= issued <= now + 5 * 60,
{
}

} // verus!
