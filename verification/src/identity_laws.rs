//! What logins through a provider promise.
//!
//! Every law speaks of workflows whose replies a store of [`crate::model`] gives.
use crate::crypto;
use crate::exactly_once;
use crate::external_identities::{self, ExternalIdentityError, IdentityView};
use crate::game::{self, Timestamp};
use crate::ids;
use crate::model::{self, Record, Store, Workflow};
use crate::oidc_attempts::{self, ClaimedView, OidcAttemptError};
use crate::profiles;
use crate::script::{self, Ask, Outcome, Reply, Trace};
use crate::store::{Datum, Op, Row};
use crate::transactions;
use vstd::prelude::*;

verus! {

/// Whether a stored login attempt waits for a browser at a moment, in milliseconds.
pub open spec fn awaits(
    record: Record,
    state: Seq<char>,
    binding: Seq<char>,
    now_ms: i64,
) -> bool {
    &&& model::datum_in(record, "state_hash"@) == Datum::Text(crypto::token_hash_of(state))
    &&& model::datum_in(record, "browser_binding_hash"@) == Datum::Text(
        crypto::token_hash_of(binding),
    )
    &&& model::datum_in(record, "status"@) == Datum::Text("PENDING"@)
    &&& model::datum_in(record, "expires_at_ms"@) matches Datum::Integer(expires_ms) && expires_ms
        > now_ms
}

/// An attempt that is claimed waited for the browser that claims it and had not expired.
pub proof fn claimed_attempts_were_bound_and_fresh(
    state: Seq<char>,
    binding: Seq<char>,
    now: Timestamp,
    replies: Seq<Reply>,
    store: Store,
    attempt: ClaimedView,
)
    requires
        model::served(exactly_once::claiming(state, binding, now), replies, store),
        model::ending(exactly_once::claiming(state, binding, now), replies) == Outcome::<
            ClaimedView,
            OidcAttemptError,
        >::Done(attempt),
    ensures
        game::millis_at(now) is Some,
        exists|i: int|
            0 <= i < store.rows("auth_login_attempts"@).len() && awaits(
                #[trigger] store.rows("auth_login_attempts"@)[i],
                state,
                binding,
                game::millis_at(now)->0,
            ) && model::datum_in(
                store.rows("auth_login_attempts"@)[i],
                "attempt_id"@,
            ) == Datum::Text(attempt.attempt_id),
{
    let workflow = exactly_once::claiming(state, binding, now);
    let op = oidc_attempts::pending_attempt_op(state, binding);
    let rows = store.rows("auth_login_attempts"@);
    assert(replies =~= replies.take(replies.len() as int));
    assert(model::asked(workflow, replies, 0) == Some(Ask::Store(op)));
    assert(model::served_at(workflow, replies, store, 0));
    model::found_rows(rows, op.filters);
    let hits = model::found(rows, op.filters);
    assert(hits.len() > 0);
    let at = choose|at: int| 0 <= at < rows.len() && rows[at] == hits[0];
    assert(model::meets(hits[0], op.filters[0]));
    assert(model::meets(hits[0], op.filters[1]));
    assert(model::meets(hits[0], op.filters[2]));
    let row = replies[0]->Rows_0@[0];
    model::shown_values(row, hits[0], "expires_at_ms"@);
    model::shown_values(row, hits[0], "attempt_id"@);
    assert(awaits(rows[at], state, binding, game::millis_at(now)->0));
}

/// Resolving a verified identity to an account.
pub open spec fn resolving(identity: IdentityView, now: Timestamp) -> Workflow<
    (Seq<char>, bool),
    ExternalIdentityError,
> {
    |trace: Trace| external_identities::resolve_run(trace, identity, now)
}

/// Whether a row links an identity.
pub open spec fn links(record: Record, issuer: Seq<char>, subject: Seq<char>) -> bool {
    model::datum_in(record, "issuer"@) == Datum::Text(issuer) && model::datum_in(
        record,
        "subject"@,
    ) == Datum::Text(subject)
}

/// Whether a store links an identity to a user, and to nobody else.
pub open spec fn linked_to(
    store: Store,
    issuer: Seq<char>,
    subject: Seq<char>,
    user_id: Seq<char>,
) -> bool {
    let rows = store.rows("external_identities"@);
    &&& exists|i: int| 0 <= i < rows.len() && links(#[trigger] rows[i], issuer, subject)
    &&& forall|i: int|
        0 <= i < rows.len() && links(#[trigger] rows[i], issuer, subject) ==> model::datum_in(
            rows[i],
            "user_id"@,
        ) == Datum::Text(user_id)
}

/// The request for the user of an identity.
pub open spec fn identity_op(issuer: Seq<char>, subject: Seq<char>) -> Op {
    Op::select("external_identities"@).where_text("issuer"@, issuer).where_text(
        "subject"@,
        subject,
    )
}

/// What a request for a linked identity finds.
pub proof fn link_is_found(
    store: Store,
    issuer: Seq<char>,
    subject: Seq<char>,
    user_id: Seq<char>,
    shown: Seq<Row>,
)
    requires
        linked_to(store, issuer, subject, user_id),
        model::all_shown(shown, model::executed(store, identity_op(issuer, subject)).1),
    ensures
        shown.len() > 0,
        shown[0].text_at("user_id"@) == Some(user_id),
{
    let op = identity_op(issuer, subject);
    let rows = store.rows("external_identities"@);
    let hits = model::found(rows, op.filters);
    model::found_rows(rows, op.filters);
    let i = choose|i: int| 0 <= i < rows.len() && links(#[trigger] rows[i], issuer, subject);
    assert forall|k: int| 0 <= k < op.filters.len() implies model::meets(
        rows[i],
        #[trigger] op.filters[k],
    ) by {
        assert(k == 0 || k == 1);
    }
    assert(model::meets_all(rows[i], op.filters));
    assert(hits.len() > 0);
    let at = choose|at: int| 0 <= at < rows.len() && rows[at] == hits[0];
    assert(model::meets(hits[0], op.filters[0]));
    assert(model::meets(hits[0], op.filters[1]));
    assert(links(rows[at], issuer, subject));
    model::shown_values(shown[0], hits[0], "user_id"@);
}

/// A known identity resolves to its user, who is not created again.
pub proof fn known_identities_resolve_to_their_user(
    identity: IdentityView,
    now: Timestamp,
    replies: Seq<Reply>,
    store: Store,
    user_id: Seq<char>,
    resolved: (Seq<char>, bool),
)
    requires
        linked_to(store, identity.issuer, identity.subject, user_id),
        model::served(resolving(identity, now), replies, store),
        model::ending(resolving(identity, now), replies) == Outcome::<
            (Seq<char>, bool),
            ExternalIdentityError,
        >::Done(resolved),
    ensures
        resolved == (user_id, false),
{
    let workflow = resolving(identity, now);
    let op = identity_op(identity.issuer, identity.subject);
    assert(replies =~= replies.take(replies.len() as int));
    assert(model::asked(workflow, replies, 0) == Some(Ask::Store(op)));
    assert(model::served_at(workflow, replies, store, 0));
    link_is_found(
        store,
        identity.issuer,
        identity.subject,
        user_id,
        replies[0]->Rows_0@,
    );
}

/// Linking an identity in one transaction.
pub open spec fn linking(user_id: Seq<char>, identity: IdentityView, now: Timestamp) -> Workflow<
    (),
    ExternalIdentityError,
> {
    transactions::transacting(transactions::linking(user_id, identity, now))
}

/// An identity that is linked cannot be linked again, not even to the same user, and nothing is
/// written.
pub proof fn linked_identities_conflict(
    user_id: Seq<char>,
    identity: IdentityView,
    now: Timestamp,
    replies: Seq<Reply>,
    store: Store,
    owner: Seq<char>,
)
    requires
        external_identities::valid_identity(identity),
        linked_to(store, identity.issuer, identity.subject, owner),
        model::served(linking(user_id, identity, now), replies, store),
        !(model::ending(linking(user_id, identity, now), replies) is Wait),
    ensures
        model::ending(linking(user_id, identity, now), replies) == Outcome::<
            (),
            ExternalIdentityError,
        >::Fail(ExternalIdentityError::Conflict),
        model::store_after(linking(user_id, identity, now), replies, store).tables
            == store.tables,
{
    let workflow = linking(user_id, identity, now);
    let op = identity_op(identity.issuer, identity.subject);
    let begun = model::executed(store, Op::begin()).0;
    assert(replies =~= replies.take(replies.len() as int));
    assert(model::asked(workflow, replies, 0) == Some(Ask::Store(Op::begin())));
    assert(model::served_at(workflow, replies, store, 0));
    assert(replies.take(1)[0] == replies[0]);
    assert(model::asked(workflow, replies, 1) == Some(Ask::Store(op)));
    assert(model::store_at(workflow, replies, store, 1) == begun);
    assert(model::served_at(workflow, replies, store, 1));
    assert(begun.rows("external_identities"@) == store.rows("external_identities"@));
    link_is_found(begun, identity.issuer, identity.subject, owner, replies[1]->Rows_0@);
    assert(replies.len() > 2);
    assert(replies.take(2)[0] == replies[0]);
    assert(replies.take(2)[1] == replies[1]);
    assert(model::served_at(workflow, replies, store, 2));
    assert(model::asked(workflow, replies, 2) == Some(Ask::Store(Op::rollback())));
    transactions::refused_links_change_nothing(
        user_id,
        identity,
        now,
        replies,
        store,
        ExternalIdentityError::Conflict,
    );
}

/// What a successful link leaves behind.
proof fn link_is_stored(
    user_id: Seq<char>,
    identity: IdentityView,
    now: Timestamp,
    replies: Seq<Reply>,
    store: Store,
)
    requires
        model::served(linking(user_id, identity, now), replies, store),
        model::ending(linking(user_id, identity, now), replies) is Done,
    ensures
        ({
            let after = model::store_after(linking(user_id, identity, now), replies, store);
            let now_ms = game::millis_at(now);
            &&& now_ms is Some
            &&& model::found(
                store.rows("external_identities"@),
                identity_op(identity.issuer, identity.subject).filters,
            ).len() == 0
            &&& after.rows("external_identities"@) == store.rows("external_identities"@).push(
                model::assigned(
                    Map::empty(),
                    external_identities::insert_identity_op(
                        ids::id_text_of(replies[4]->Ids_0@[0]),
                        identity,
                        user_id,
                        now_ms->0,
                    ).values,
                ),
            )
        }),
{
    let workflow = linking(user_id, identity, now);
    let now_ms = game::millis_at(now)->0;
    let lookup = identity_op(identity.issuer, identity.subject);
    let other = Op::select("external_identities"@).where_text("user_id"@, user_id).where_text(
        "issuer"@,
        identity.issuer,
    );
    let profile = profiles::insert_profile_op(
        user_id,
        profiles::normalized_display_name(identity.display_name)->0,
        identity.picture_url,
        now_ms,
    );
    let insert = external_identities::insert_identity_op(
        ids::id_text_of(replies[4]->Ids_0@[0]),
        identity,
        user_id,
        now_ms,
    );
    let begun = model::executed(store, Op::begin()).0;
    assert(replies =~= replies.take(replies.len() as int));
    assert(replies.len() > 6);
    assert(model::asked(workflow, replies, 0) == Some(Ask::Store(Op::begin())));
    assert(model::served_at(workflow, replies, store, 0));
    assert(replies.take(1)[0] == replies[0]);
    assert(model::asked(workflow, replies, 1) == Some(Ask::Store(lookup)));
    assert(model::store_at(workflow, replies, store, 1) == begun);
    assert(model::served_at(workflow, replies, store, 1));
    assert(begun.rows("external_identities"@) == store.rows("external_identities"@));
    assert(model::store_at(workflow, replies, store, 2) == begun);
    link_goes_on(workflow, user_id, identity, now, replies, 2);
    assert(model::asked(workflow, replies, 2) == Some(Ask::Store(other)));
    assert(model::store_at(workflow, replies, store, 3) == begun);
    link_goes_on(workflow, user_id, identity, now, replies, 3);
    assert(model::asked(workflow, replies, 3) == Some(Ask::Store(profile)));
    let described = model::executed(begun, profile).0;
    assert(model::store_at(workflow, replies, store, 4) == described);
    link_goes_on(workflow, user_id, identity, now, replies, 4);
    assert(model::asked(workflow, replies, 4) == Some(Ask::FreshIds(1)));
    assert(model::store_at(workflow, replies, store, 5) == described);
    link_goes_on(workflow, user_id, identity, now, replies, 5);
    assert(model::asked(workflow, replies, 5) == Some(Ask::Store(insert)));
    let inserted = model::executed(described, insert).0;
    assert(model::store_at(workflow, replies, store, 6) == inserted);
    link_goes_on(workflow, user_id, identity, now, replies, 6);
    assert(model::asked(workflow, replies, 6) == Some(Ask::Store(Op::commit())));
    assert(model::served_at(workflow, replies, store, 6));
    let after = model::executed(inserted, Op::commit()).0;
    assert(model::store_at(workflow, replies, store, 7) == after);
    if replies.len() > 7 {
        link_goes_on(workflow, user_id, identity, now, replies, 7);
        assert(model::served_at(workflow, replies, store, 7));
    }
    reveal_strlit("external_identities");
    reveal_strlit("user_profiles");
    assert("external_identities"@.len() == 19);
    assert("user_profiles"@.len() == 13);
}

/// The first replies of a link.
proof fn link_goes_on(
    workflow: Workflow<(), ExternalIdentityError>,
    user_id: Seq<char>,
    identity: IdentityView,
    now: Timestamp,
    replies: Seq<Reply>,
    count: int,
)
    requires
        workflow == linking(user_id, identity, now),
        model::ending(workflow, replies) is Done,
        2 <= count <= replies.len(),
        count <= 7,
    ensures
        workflow(Trace { replies: replies.take(count), at: 0 }) == script::settled(
            external_identities::link_run(
                Trace { replies: replies.take(count), at: 1 },
                user_id,
                identity,
                now,
            ),
        ),
        forall|i: int| 0 <= i < count ==> #[trigger] replies.take(count)[i] == replies[i],
{
    let cut = replies.take(count);
    assert(cut[0] == replies[0]);
    assert(cut[1] == replies[1]);
}

/// Whoever links an identity is who it resolves to from then on.
pub proof fn linked_identities_resolve_to_their_user(
    user_id: Seq<char>,
    identity: IdentityView,
    now: Timestamp,
    replies: Seq<Reply>,
    store: Store,
    later: Timestamp,
    later_replies: Seq<Reply>,
    resolved: (Seq<char>, bool),
)
    requires
        model::served(linking(user_id, identity, now), replies, store),
        model::ending(linking(user_id, identity, now), replies) is Done,
        model::served(
            resolving(identity, later),
            later_replies,
            model::store_after(linking(user_id, identity, now), replies, store),
        ),
        model::ending(resolving(identity, later), later_replies) == Outcome::<
            (Seq<char>, bool),
            ExternalIdentityError,
        >::Done(resolved),
    ensures
        linked_to(
            model::store_after(linking(user_id, identity, now), replies, store),
            identity.issuer,
            identity.subject,
            user_id,
        ),
        resolved == (user_id, false),
{
    let after = model::store_after(linking(user_id, identity, now), replies, store);
    link_is_stored(user_id, identity, now, replies, store);
    let now_ms = game::millis_at(now)->0;
    let insert = external_identities::insert_identity_op(
        ids::id_text_of(replies[4]->Ids_0@[0]),
        identity,
        user_id,
        now_ms,
    );
    reveal_strlit("external_identity_id");
    reveal_strlit("provider");
    reveal_strlit("issuer");
    reveal_strlit("subject");
    reveal_strlit("user_id");
    reveal_strlit("provider_display_name");
    reveal_strlit("provider_picture_url");
    reveal_strlit("created_at_ms");
    reveal_strlit("last_authenticated_at_ms");
    assert("external_identity_id"@.len() == 20);
    assert("provider"@.len() == 8);
    assert("issuer"@.len() == 6);
    assert("subject"@.len() == 7 && "subject"@[0] == 's');
    assert("user_id"@.len() == 7 && "user_id"@[0] == 'u');
    assert("provider_display_name"@.len() == 21);
    assert("provider_picture_url"@.len() == 20);
    assert("created_at_ms"@.len() == 13);
    assert("last_authenticated_at_ms"@.len() == 24);
    model::assigned_sets(Map::empty(), insert.values, 2);
    model::assigned_sets(Map::empty(), insert.values, 3);
    model::assigned_sets(Map::empty(), insert.values, 4);
    let old_rows = store.rows("external_identities"@);
    let rows = after.rows("external_identities"@);
    let op = identity_op(identity.issuer, identity.subject);
    model::found_rows(old_rows, op.filters);
    assert(links(rows[old_rows.len() as int], identity.issuer, identity.subject));
    assert forall|i: int| 0 <= i < rows.len() && links(
        #[trigger] rows[i],
        identity.issuer,
        identity.subject,
    ) implies model::datum_in(rows[i], "user_id"@) == Datum::Text(user_id) by {
        if i < old_rows.len() {
            assert forall|k: int| 0 <= k < op.filters.len() implies model::meets(
                old_rows[i],
                #[trigger] op.filters[k],
            ) by {
                assert(k == 0 || k == 1);
            }
            assert(model::meets_all(old_rows[i], op.filters));
        }
    }
    known_identities_resolve_to_their_user(
        identity,
        later,
        later_replies,
        after,
        user_id,
        resolved,
    );
}

} // verus!
