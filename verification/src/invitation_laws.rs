//! What invitations promise from their creation to their end.
use crate::crypto;
use crate::exactly_once;
use crate::game::{self, Span, Timestamp};
use crate::ids;
use crate::invitations::{self, InvitationError};
use crate::lobbies;
use crate::model::{self, Record, Store, Workflow};
use crate::script::{self, Ask, Outcome, Reply, Run, Trace};
use crate::stages;
use crate::steady;
use crate::store::{Datum, Op, Relation, Row};
use vstd::prelude::*;

verus! {

/// Creating an invitation.
pub open spec fn inviting(creator: Seq<char>, now: Timestamp, lifetime: Span) -> Workflow<
    (Seq<char>, Seq<char>),
    InvitationError,
> {
    |trace: Trace| invitations::create_invitation_run(trace, creator, now, lifetime)
}

/// Revoking an invitation.
pub open spec fn revoking(id: Seq<char>, creator: Seq<char>) -> Workflow<(), InvitationError> {
    |trace: Trace| invitations::revoke_run(trace, id, creator)
}

/// The row of a new invitation.
pub open spec fn invitation_record(
    id: Seq<char>,
    creator: Seq<char>,
    secret: Seq<char>,
    expires_ms: i64,
    now_ms: i64,
) -> Record {
    model::assigned(
        Map::empty(),
        invitations::insert_invitation_op(
            id,
            creator,
            crypto::token_hash_of(secret),
            expires_ms,
            now_ms,
        ).values,
    )
}

/// Whether an invitation's secret is known to a store by its digest.
pub open spec fn secret_known(store: Store, secret: Seq<char>) -> bool {
    exists|i: int|
        0 <= i < store.rows("invitations"@).len() && model::datum_in(
            #[trigger] store.rows("invitations"@)[i],
            "token_hash"@,
        ) == Datum::Text(crypto::token_hash_of(secret))
}

spec fn trying(
    creator: Seq<char>,
    now: Timestamp,
    expires: Timestamp,
    attempts: int,
) -> Workflow<(Seq<char>, Seq<char>), InvitationError> {
    |trace: Trace| invitations::try_invitation_run(trace, creator, now, expires, attempts)
}

spec fn storing(
    creator: Seq<char>,
    secret: Seq<char>,
    now: Timestamp,
    expires: Timestamp,
) -> Workflow<(Seq<char>, Seq<char>), InvitationError> {
    |trace: Trace| invitations::store_invitation_run(trace, creator, secret, now, expires)
}

proof fn trying_is_in_order(
    creator: Seq<char>,
    now: Timestamp,
    expires: Timestamp,
    attempts: int,
    replies: Seq<Reply>,
    from: int,
)
    requires
        0 <= from,
    ensures
        stages::in_order(trying(creator, now, expires, attempts), replies, from),
    decreases attempts,
{
    let workflow = trying(creator, now, expires, attempts);
    if attempts > 0 {
        trying_is_in_order(creator, now, expires, attempts - 1, replies, from + 2);
    }
    assert forall|cut: int| 0 <= cut <= replies.len() implies steady::steady(
        workflow(Trace { replies, at: from }),
        #[trigger] stages::stage_run(workflow, replies, from, cut),
        replies,
        from,
        cut,
    ) by {
        if attempts > 0 {
            assert(stages::stage_run(
                trying(creator, now, expires, attempts - 1),
                replies,
                from + 2,
                cut,
            ) == invitations::try_invitation_run(
                Trace { replies: replies.take(cut), at: from + 2 },
                creator,
                now,
                expires,
                attempts - 1,
            ));
        }
        assert forall|k: int| from <= k < cut implies replies.take(cut)[k]
            == #[trigger] replies[k] by {}
    }
}

proof fn invitation_is_tried(
    creator: Seq<char>,
    now: Timestamp,
    expires: Timestamp,
    attempts: int,
    replies: Seq<Reply>,
    from: int,
    store: Store,
    value: (Seq<char>, Seq<char>),
    to: int,
    after: Store,
)
    requires
        stages::played(
            trying(creator, now, expires, attempts),
            replies,
            from,
            store,
            value,
            to,
            after,
        ),
    ensures
        !secret_known(store, value.1),
        game::millis_at(expires) is Some,
        game::millis_at(now) is Some,
        after == store.with_rows(
            "invitations"@,
            store.rows("invitations"@).push(
                invitation_record(
                    value.0,
                    creator,
                    value.1,
                    game::millis_at(expires)->0,
                    game::millis_at(now)->0,
                ),
            ),
        ),
    decreases attempts,
{
    let stage = trying(creator, now, expires, attempts);
    let lookup = |secret: Seq<char>|
        Op::select("invitations"@).where_text("token_hash"@, crypto::token_hash_of(secret));
    let rest = |secret: Seq<char>|
        |used: Seq<Row>, trace: Trace|
            if used.len() > 0 {
                invitations::try_invitation_run(trace, creator, now, expires, attempts - 1)
            } else {
                invitations::store_invitation_run(trace, creator, secret, now, expires)
            };
    let drawn = |reply: Reply, trace: Trace|
        match reply {
            Reply::Ids(ids) if ids@.len() == 2 => script::query(
                trace,
                lookup(lobbies::secret_of(ids@[0], ids@[1])),
                rest(lobbies::secret_of(ids@[0], ids@[1])),
            ),
            _ => Run { outcome: Outcome::Mismatch(trace.at - 1), trace },
        };
    assert(attempts > 0);
    trying_is_in_order(creator, now, expires, attempts - 1, replies, from + 2);
    let count = replies.len() as int;
    assert(replies.take(count) =~= replies);
    assert(stages::stage_run(
        trying(creator, now, expires, attempts - 1),
        replies,
        from + 2,
        count,
    ) == invitations::try_invitation_run(
        Trace { replies, at: from + 2 },
        creator,
        now,
        expires,
        attempts - 1,
    ));
    assert(to >= from + 2);
    assert forall|trace: Trace| #[trigger] stage(trace) == (if trace.spent() {
        Run { outcome: Outcome::Wait(Ask::FreshIds(2)), trace }
    } else {
        drawn(trace.reply(), trace.next())
    }) by {}
    stages::answered(stage, Ask::FreshIds(2), drawn, replies, from, store, value, to, after);
    let second: Workflow<(Seq<char>, Seq<char>), InvitationError> = |trace: Trace|
        drawn(replies[from], trace);
    let pair = replies[from]->Ids_0@;
    let secret = lobbies::secret_of(pair[0], pair[1]);
    let op = lookup(secret);
    let used = stages::queried(
        second,
        op,
        rest(secret),
        replies,
        from + 1,
        store,
        value,
        to,
        after,
    );
    let third: Workflow<(Seq<char>, Seq<char>), InvitationError> = |trace: Trace|
        rest(secret)(used, trace);
    if used.len() > 0 {
        let next = trying(creator, now, expires, attempts - 1);
        stages::same_stage(third, next, replies, from + 2, store, value, to, after);
        invitation_is_tried(
            creator,
            now,
            expires,
            attempts - 1,
            replies,
            from + 2,
            store,
            value,
            to,
            after,
        );
    } else {
        let next = storing(creator, secret, now, expires);
        stages::same_stage(third, next, replies, from + 2, store, value, to, after);
        invitation_is_stored(
            creator,
            secret,
            now,
            expires,
            replies,
            from + 2,
            store,
            value,
            to,
            after,
        );
        let table = store.rows("invitations"@);
        model::found_rows(table, op.filters);
        assert(model::executed(store, op).1 == model::found(table, op.filters));
        if secret_known(store, secret) {
            let i = choose|i: int|
                0 <= i < table.len() && model::datum_in(#[trigger] table[i], "token_hash"@)
                    == Datum::Text(crypto::token_hash_of(secret));
            assert(model::meets(table[i], op.filters[0]));
            assert(model::meets_all(table[i], op.filters));
        }
    }
}

proof fn invitation_is_stored(
    creator: Seq<char>,
    secret: Seq<char>,
    now: Timestamp,
    expires: Timestamp,
    replies: Seq<Reply>,
    from: int,
    store: Store,
    value: (Seq<char>, Seq<char>),
    to: int,
    after: Store,
)
    requires
        stages::played(
            storing(creator, secret, now, expires),
            replies,
            from,
            store,
            value,
            to,
            after,
        ),
    ensures
        value.1 == secret,
        game::millis_at(expires) is Some,
        game::millis_at(now) is Some,
        after == store.with_rows(
            "invitations"@,
            store.rows("invitations"@).push(
                invitation_record(
                    value.0,
                    creator,
                    secret,
                    game::millis_at(expires)->0,
                    game::millis_at(now)->0,
                ),
            ),
        ),
{
    let stage = storing(creator, secret, now, expires);
    let end = |id: Seq<char>|
        |rows: Seq<Row>, trace: Trace|
            script::done::<(Seq<char>, Seq<char>), InvitationError>(trace, (id, secret));
    let insert = |id: Seq<char>|
        invitations::insert_invitation_op(
            id,
            creator,
            crypto::token_hash_of(secret),
            game::millis_at(expires)->0,
            game::millis_at(now)->0,
        );
    let drawn = |reply: Reply, trace: Trace|
        match reply {
            Reply::Ids(ids) if ids@.len() == 1 => match (
                game::millis_at(expires),
                game::millis_at(now),
            ) {
                (Some(expires_ms), Some(now_ms)) => script::query(
                    trace,
                    insert(ids::id_text_of(ids@[0])),
                    end(ids::id_text_of(ids@[0])),
                ),
                _ => script::fail(trace, InvitationError::Timestamp),
            },
            _ => Run { outcome: Outcome::Mismatch(trace.at - 1), trace },
        };
    assert forall|trace: Trace| #[trigger] stage(trace) == (if trace.spent() {
        Run { outcome: Outcome::Wait(Ask::FreshIds(1)), trace }
    } else {
        drawn(trace.reply(), trace.next())
    }) by {}
    stages::answered(stage, Ask::FreshIds(1), drawn, replies, from, store, value, to, after);
    let second: Workflow<(Seq<char>, Seq<char>), InvitationError> = |trace: Trace|
        drawn(replies[from], trace);
    let id = ids::id_text_of(replies[from]->Ids_0@[0]);
    assert(second(Trace { replies, at: from + 1 }).outcome is Done);
    let rows = stages::queried(
        second,
        insert(id),
        end(id),
        replies,
        from + 1,
        store,
        value,
        to,
        after,
    );
    let next = model::executed(store, insert(id)).0;
    let last: Workflow<(Seq<char>, Seq<char>), InvitationError> = |trace: Trace|
        end(id)(rows, trace);
    stages::ended(last, replies, from + 2, next, value, to, after, (id, secret));
}

/// What the row of a new invitation holds.
proof fn record_holds(
    id: Seq<char>,
    creator: Seq<char>,
    secret: Seq<char>,
    expires_ms: i64,
    now_ms: i64,
)
    ensures
        ({
            let record = invitation_record(id, creator, secret, expires_ms, now_ms);
            &&& model::datum_in(record, "invitation_id"@) == Datum::Text(id)
            &&& model::datum_in(record, "creator_user_id"@) == Datum::Text(creator)
            &&& model::datum_in(record, "token_hash"@) == Datum::Text(crypto::token_hash_of(secret))
            &&& model::datum_in(record, "status"@) == Datum::Text("ACTIVE"@)
            &&& model::datum_in(record, "expires_at_ms"@) == Datum::Integer(expires_ms as int)
        }),
{
    let values = invitations::insert_invitation_op(
        id,
        creator,
        crypto::token_hash_of(secret),
        expires_ms,
        now_ms,
    ).values;
    reveal_strlit("invitation_id");
    reveal_strlit("creator_user_id");
    reveal_strlit("token_hash");
    reveal_strlit("status");
    reveal_strlit("expires_at_ms");
    reveal_strlit("redeemed_by_user_id");
    reveal_strlit("created_at_ms");
    assert("invitation_id"@.len() == 13 && "invitation_id"@[0] == 'i');
    assert("creator_user_id"@.len() == 15);
    assert("token_hash"@.len() == 10);
    assert("status"@.len() == 6);
    assert("expires_at_ms"@.len() == 13 && "expires_at_ms"@[0] == 'e');
    assert("redeemed_by_user_id"@.len() == 19);
    assert("created_at_ms"@.len() == 13 && "created_at_ms"@[0] == 'c');
    assert(values.len() == 7);
    model::assigned_sets(Map::empty(), values, 0);
    model::assigned_sets(Map::empty(), values, 1);
    model::assigned_sets(Map::empty(), values, 2);
    model::assigned_sets(Map::empty(), values, 3);
    model::assigned_sets(Map::empty(), values, 4);
}

/// A new invitation is active under a secret that no invitation had, and the store is given its
/// digest alone: the row that was added is all that changed.
pub proof fn new_invitations_are_active(
    creator: Seq<char>,
    now: Timestamp,
    lifetime: Span,
    replies: Seq<Reply>,
    store: Store,
)
    requires
        model::served(inviting(creator, now, lifetime), replies, store),
        model::ending(inviting(creator, now, lifetime), replies) is Done,
    ensures
        ({
            let (id, secret) = model::ending(inviting(creator, now, lifetime), replies)->Done_0;
            let after = model::store_after(inviting(creator, now, lifetime), replies, store);
            let expires = game::moment_after(now, lifetime);
            &&& !secret_known(store, secret)
            &&& exactly_once::invitation_active(after, secret)
            &&& expires is Some
            &&& game::millis_at(expires->0) is Some
            &&& game::millis_at(now) is Some
            &&& after == store.with_rows(
                "invitations"@,
                store.rows("invitations"@).push(
                    invitation_record(
                        id,
                        creator,
                        secret,
                        game::millis_at(expires->0)->0,
                        game::millis_at(now)->0,
                    ),
                ),
            )
            &&& exactly_once::unique_text(store.rows("invitations"@), "token_hash"@)
                ==> exactly_once::unique_text(after.rows("invitations"@), "token_hash"@)
        }),
{
    let workflow = inviting(creator, now, lifetime);
    let value = model::ending(workflow, replies)->Done_0;
    let expires = game::moment_after(now, lifetime)->0;
    let to = replies.len() as int;
    let after = model::store_after(workflow, replies, store);
    let stage = trying(creator, now, expires, 4);
    trying_is_in_order(creator, now, expires, 4, replies, 0);
    assert forall|cut: int| 0 <= cut <= replies.len() implies steady::steady(
        workflow(Trace { replies, at: 0 }),
        #[trigger] stages::stage_run(workflow, replies, 0, cut),
        replies,
        0,
        cut,
    ) by {
        assert(stages::stage_run(workflow, replies, 0, cut) == stages::stage_run(
            stage,
            replies,
            0,
            cut,
        ));
    }
    stages::whole_is_played(workflow, replies, store, value);
    stages::same_stage(workflow, stage, replies, 0, store, value, to, after);
    invitation_is_tried(creator, now, expires, 4, replies, 0, store, value, to, after);
    record_holds(
        value.0,
        creator,
        value.1,
        game::millis_at(expires)->0,
        game::millis_at(now)->0,
    );
    let rows = after.rows("invitations"@);
    assert(model::datum_in(rows[rows.len() - 1], "status"@) == Datum::Text("ACTIVE"@));
    let old_rows = store.rows("invitations"@);
    assert forall|i: int| 0 <= i < old_rows.len() implies model::datum_in(
        #[trigger] rows[i],
        "token_hash"@,
    ) != Datum::Text(crypto::token_hash_of(value.1)) by {
        assert(rows[i] == old_rows[i]);
    }
    if exactly_once::unique_text(old_rows, "token_hash"@) {
        assert forall|i: int, j: int|
            0 <= i < j < rows.len() && (model::datum_in(#[trigger] rows[i], "token_hash"@)
                is Text) implies model::datum_in(rows[i], "token_hash"@) != model::datum_in(
            #[trigger] rows[j],
            "token_hash"@,
        ) by {
            assert(rows[i] == old_rows[i]);
            if j < old_rows.len() {
                assert(rows[j] == old_rows[j]);
            }
        }
    }
}

/// Whoever is given the secret of a new invitation redeems it while it lasts, the creator excepted.
///
/// The identity of the invitation is drawn at random; it is taken to be new.
pub proof fn new_invitations_are_redeemed(
    creator: Seq<char>,
    now: Timestamp,
    lifetime: Span,
    replies: Seq<Reply>,
    store: Store,
    id: Seq<char>,
    secret: Seq<char>,
    redeemer: Seq<char>,
    later: Timestamp,
    later_replies: Seq<Reply>,
)
    requires
        model::served(inviting(creator, now, lifetime), replies, store),
        model::ending(inviting(creator, now, lifetime), replies) == Outcome::<
            (Seq<char>, Seq<char>),
            InvitationError,
        >::Done((id, secret)),
        forall|i: int|
            0 <= i < store.rows("invitations"@).len() ==> model::datum_in(
                #[trigger] store.rows("invitations"@)[i],
                "invitation_id"@,
            ) != Datum::Text(id),
        redeemer != creator,
        game::millis_at(later) is Some,
        game::millis_at(later)->0 < game::millis_at(game::moment_after(now, lifetime)->0)->0,
        model::served(
            exactly_once::redeeming(secret, redeemer, later),
            later_replies,
            model::store_after(inviting(creator, now, lifetime), replies, store),
        ),
        later_replies.len() > 3,
    ensures
        model::ending(exactly_once::redeeming(secret, redeemer, later), later_replies)
            == Outcome::<Seq<char>, InvitationError>::Done(id),
{
    let workflow = exactly_once::redeeming(secret, redeemer, later);
    let before = model::store_after(inviting(creator, now, lifetime), replies, store);
    let expires_ms = game::millis_at(game::moment_after(now, lifetime)->0)->0;
    let now_ms = game::millis_at(now)->0;
    new_invitations_are_active(creator, now, lifetime, replies, store);
    record_holds(id, creator, secret, expires_ms, now_ms);
    let record = invitation_record(id, creator, secret, expires_ms, now_ms);
    let earlier = store.rows("invitations"@);
    let rows = before.rows("invitations"@);
    assert(rows == earlier.push(record));
    let begun = model::executed(before, Op::begin()).0;
    assert(begun.rows("invitations"@) == rows);
    let select = exactly_once::select_active_op(secret);
    let mark = invitations::redeem_op(id, redeemer);
    only_the_new_row_is_found(earlier, record, select.filters, 0);
    only_the_new_row_is_found(earlier, record, mark.filters, 0);
    assert(model::asked(workflow, later_replies, 0) == Some(Ask::Store(Op::begin())));
    assert(model::served_at(workflow, later_replies, before, 0));
    assert(model::store_at(workflow, later_replies, before, 1) == begun);
    assert(later_replies.take(1)[0] == later_replies[0]);
    assert(model::asked(workflow, later_replies, 1) == Some(Ask::Store(select)));
    assert(model::served_at(workflow, later_replies, before, 1));
    assert(model::store_at(workflow, later_replies, before, 2) == begun);
    let shown = later_replies[1]->Rows_0@;
    assert(model::executed(begun, select).1 == seq![record]);
    assert(model::shows(shown[0], record));
    model::shown_values(shown[0], record, "invitation_id"@);
    model::shown_values(shown[0], record, "creator_user_id"@);
    model::shown_values(shown[0], record, "expires_at_ms"@);
    assert(later_replies.take(2)[0] == later_replies[0]);
    assert(later_replies.take(2)[1] == later_replies[1]);
    assert(model::asked(workflow, later_replies, 2) == Some(Ask::Store(mark)));
    assert(model::served_at(workflow, later_replies, before, 2));
    assert(model::executed(begun, mark).1.len() == 1);
    assert(later_replies[2]->Rows_0@.len() == 1);
    assert(later_replies.take(3)[0] == later_replies[0]);
    assert(later_replies.take(3)[1] == later_replies[1]);
    assert(later_replies.take(3)[2] == later_replies[2]);
    assert(model::asked(workflow, later_replies, 3) == Some(Ask::Store(Op::commit())));
    assert(model::served_at(workflow, later_replies, before, 3));
}

/// Where no earlier row meets one of the filters and the new row meets all, only the new row is
/// found.
pub proof fn only_the_new_row_is_found(
    earlier: Seq<Record>,
    record: Record,
    filters: Seq<(Seq<char>, Relation, Datum)>,
    place: int,
)
    requires
        0 <= place < filters.len(),
        forall|i: int| 0 <= i < earlier.len() ==> !model::meets(#[trigger] earlier[i], filters[place]),
        model::meets_all(record, filters),
    ensures
        model::found(earlier.push(record), filters) == seq![record],
{
    model::found_rows(earlier, filters);
    if model::found(earlier, filters).len() > 0 {
        let i = choose|i: int| 0 <= i < earlier.len() && model::meets_all(#[trigger] earlier[i], filters);
        assert(model::meets(earlier[i], filters[place]));
    }
    assert(earlier.push(record).drop_last() =~= earlier);
    assert(model::found(earlier, filters) =~= Seq::empty());
    assert(Seq::<Record>::empty().push(record) =~= seq![record]);
}

/// Whether a store has an invitation with this identity and secret.
pub open spec fn invitation_of(store: Store, id: Seq<char>, secret: Seq<char>) -> bool {
    exactly_once::holds_both(
        store.rows("invitations"@),
        "invitation_id"@,
        id,
        "token_hash"@,
        crypto::token_hash_of(secret),
    )
}

/// A revoked invitation is active no more.
pub proof fn revoking_ends_active(
    id: Seq<char>,
    creator: Seq<char>,
    secret: Seq<char>,
    replies: Seq<Reply>,
    store: Store,
)
    requires
        exactly_once::unique_text(store.rows("invitations"@), "invitation_id"@),
        exactly_once::unique_text(store.rows("invitations"@), "token_hash"@),
        invitation_of(store, id, secret),
        model::served(revoking(id, creator), replies, store),
        model::ending(revoking(id, creator), replies) is Done,
    ensures
        !exactly_once::invitation_active(
            model::store_after(revoking(id, creator), replies, store),
            secret,
        ),
{
    let workflow = revoking(id, creator);
    let op = invitations::revoke_op(id, creator);
    let hash = crypto::token_hash_of(secret);
    let rows = store.rows("invitations"@);
    let after = model::executed(store, op).0;
    assert(model::asked(workflow, replies, 0) == Some(Ask::Store(op)));
    assert(model::served_at(workflow, replies, store, 0));
    assert(model::store_at(workflow, replies, store, 1) == after);
    if replies.len() > 1 {
        assert(replies.take(1)[0] == replies[0]);
        assert(model::served_at(workflow, replies, store, 1));
    }
    let hits = model::found(rows, op.filters);
    model::found_rows(rows, op.filters);
    assert(model::executed(store, op).1.len() == hits.len());
    assert(hits.len() > 0);
    let f = choose|f: int| 0 <= f < rows.len() && model::meets_all(#[trigger] rows[f], op.filters);
    assert(model::meets(rows[f], op.filters[0]));
    let g = choose|g: int|
        0 <= g < rows.len() && model::datum_in(#[trigger] rows[g], "invitation_id"@) == Datum::Text(
            id,
        ) && model::datum_in(rows[g], "token_hash"@) == Datum::Text(hash);
    assert(f == g);
    reveal_strlit("ACTIVE");
    reveal_strlit("REVOKED");
    reveal_strlit("status");
    reveal_strlit("token_hash");
    assert("ACTIVE"@.len() == 6);
    assert("REVOKED"@.len() == 7);
    assert("status"@.len() == 6);
    assert("token_hash"@.len() == 10);
    let changed = after.rows("invitations"@);
    assert(changed == model::updated(rows, op.filters, op.values));
    assert forall|i: int| 0 <= i < changed.len() implies !(model::datum_in(
        #[trigger] changed[i],
        "token_hash"@,
    ) == Datum::Text(hash) && model::datum_in(changed[i], "status"@) == Datum::Text("ACTIVE"@)) by {
        if model::meets_all(rows[i], op.filters) {
            model::assigned_sets(rows[i], op.values, 0);
        } else if model::datum_in(rows[i], "token_hash"@) == Datum::Text(hash) {
            assert(i == g);
        }
    }
}

/// A revoked invitation is refused to whoever has its secret, and nothing is written.
pub proof fn revoked_invitations_are_refused(
    id: Seq<char>,
    creator: Seq<char>,
    secret: Seq<char>,
    replies: Seq<Reply>,
    store: Store,
    redeemer: Seq<char>,
    later: Timestamp,
    later_replies: Seq<Reply>,
)
    requires
        exactly_once::unique_text(store.rows("invitations"@), "invitation_id"@),
        exactly_once::unique_text(store.rows("invitations"@), "token_hash"@),
        invitation_of(store, id, secret),
        model::served(revoking(id, creator), replies, store),
        model::ending(revoking(id, creator), replies) is Done,
        model::served(
            exactly_once::redeeming(secret, redeemer, later),
            later_replies,
            model::store_after(revoking(id, creator), replies, store),
        ),
        later_replies.len() > 1,
    ensures
        model::ending(exactly_once::redeeming(secret, redeemer, later), later_replies)
            == Outcome::<Seq<char>, InvitationError>::Fail(InvitationError::Invalid),
        model::store_after(
            exactly_once::redeeming(secret, redeemer, later),
            later_replies,
            model::store_after(revoking(id, creator), replies, store),
        ).tables == model::store_after(revoking(id, creator), replies, store).tables,
{
    revoking_ends_active(id, creator, secret, replies, store);
    exactly_once::only_active_invitations_are_redeemed(
        secret,
        redeemer,
        later,
        later_replies,
        model::store_after(revoking(id, creator), replies, store),
    );
}

/// Only someone else's invitation that has not expired is redeemed.
pub proof fn redeemed_invitations_were_others_and_fresh(
    secret: Seq<char>,
    redeemer: Seq<char>,
    now: Timestamp,
    replies: Seq<Reply>,
    store: Store,
)
    requires
        model::served(exactly_once::redeeming(secret, redeemer, now), replies, store),
        model::ending(exactly_once::redeeming(secret, redeemer, now), replies) is Done,
    ensures
        game::millis_at(now) is Some,
        exists|i: int|
            0 <= i < store.rows("invitations"@).len() && offered(
                #[trigger] store.rows("invitations"@)[i],
                secret,
                redeemer,
                game::millis_at(now)->0,
            ),
{
    let workflow = exactly_once::redeeming(secret, redeemer, now);
    let select = exactly_once::select_active_op(secret);
    let begun = model::executed(store, Op::begin()).0;
    let rows = store.rows("invitations"@);
    let hits = model::found(rows, select.filters);
    assert(replies.len() > 1) by {
        if replies.len() <= 1 {
            assert(replies =~= replies.take(replies.len() as int));
        }
    }
    assert(model::asked(workflow, replies, 0) == Some(Ask::Store(Op::begin())));
    assert(model::served_at(workflow, replies, store, 0));
    assert(model::store_at(workflow, replies, store, 1) == begun);
    assert(replies.take(1)[0] == replies[0]);
    assert(model::asked(workflow, replies, 1) == Some(Ask::Store(select)));
    assert(model::served_at(workflow, replies, store, 1));
    assert(begun.rows("invitations"@) == rows);
    model::found_rows(rows, select.filters);
    let shown = replies[1]->Rows_0@;
    assert(shown.len() > 0 && model::shows(shown[0], hits[0]));
    model::shown_values(shown[0], hits[0], "creator_user_id"@);
    model::shown_values(shown[0], hits[0], "expires_at_ms"@);
    assert(model::meets(hits[0], select.filters[0]));
    assert(model::meets(hits[0], select.filters[1]));
    let i = choose|i: int| 0 <= i < rows.len() && rows[i] == hits[0];
    assert(offered(rows[i], secret, redeemer, game::millis_at(now)->0));
}

/// Whether a row is an active invitation with this secret, by someone other than `redeemer`, that
/// lasts beyond `now_ms`.
pub open spec fn offered(
    record: Record,
    secret: Seq<char>,
    redeemer: Seq<char>,
    now_ms: i64,
) -> bool {
    &&& model::datum_in(record, "token_hash"@) == Datum::Text(crypto::token_hash_of(secret))
    &&& model::datum_in(record, "status"@) == Datum::Text("ACTIVE"@)
    &&& model::datum_in(record, "creator_user_id"@) matches Datum::Text(creator)
    &&& creator != redeemer
    &&& model::datum_in(record, "expires_at_ms"@) matches Datum::Integer(expires_ms)
    &&& expires_ms > now_ms
}

} // verus!
