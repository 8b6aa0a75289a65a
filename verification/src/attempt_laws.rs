//! What login attempts hold: for whom and for how long they wait, what a claim gives back, and what
//! a clean-up leaves.
use crate::crypto;
use crate::exactly_once;
use crate::game::{self, Span, Timestamp};
use crate::ids;
use crate::model::{self, Record, Store, Workflow};
use crate::oidc_attempts::{
    self, AttemptView, ClaimedView, NewAttemptView, OidcAttemptError, OidcAttemptPurpose,
};
use crate::profile_laws;
use crate::script::{self, Ask, Outcome, Reply, Run, Trace};
use crate::settings_laws;
use crate::stages;
use crate::store::{Datum, Op, Relation, Row, Verb};
use vstd::prelude::*;

verus! {

/// Making a login attempt.
pub open spec fn attempting(wanted: AttemptView, now: Timestamp, lifetime: Span) -> Workflow<
    NewAttemptView,
    OidcAttemptError,
> {
    |trace: Trace| oidc_attempts::create_attempt_run(trace, wanted, now, lifetime)
}

/// A text that may be missing, as a value.
pub open spec fn optional(text: Option<Seq<char>>) -> Datum {
    match text {
        Some(text) => Datum::Text(text),
        None => Datum::Null,
    }
}

/// Whether a row is an attempt that waits: under the digests of its state and of its browser's
/// secret, with what it was made for, until it expires.
pub open spec fn waits(
    record: Record,
    wanted: AttemptView,
    attempt: NewAttemptView,
    now_ms: i64,
    expires_ms: i64,
) -> bool {
    &&& model::datum_in(record, "attempt_id"@) == Datum::Text(attempt.attempt_id)
    &&& model::datum_in(record, "state_hash"@) == Datum::Text(crypto::token_hash_of(attempt.state))
    &&& model::datum_in(record, "browser_binding_hash"@) == Datum::Text(
        crypto::token_hash_of(attempt.browser_binding),
    )
    &&& model::datum_in(record, "nonce"@) == Datum::Text(attempt.nonce)
    &&& model::datum_in(record, "pkce_verifier"@) == Datum::Text(attempt.pkce_verifier)
    &&& model::datum_in(record, "purpose"@) == Datum::Text(
        match wanted.purpose {
            OidcAttemptPurpose::Login => "LOGIN"@,
            OidcAttemptPurpose::MigratePassword => "MIGRATE_PASSWORD"@,
        },
    )
    &&& model::datum_in(record, "existing_user_id"@) == optional(wanted.existing_user_id)
    &&& model::datum_in(record, "continuation_invitation_id"@) == optional(
        wanted.continuation_invitation_id,
    )
    &&& model::datum_in(record, "status"@) == Datum::Text("PENDING"@)
    &&& model::datum_in(record, "created_at_ms"@) == Datum::Integer(now_ms as int)
    &&& model::datum_in(record, "expires_at_ms"@) == Datum::Integer(expires_ms as int)
    &&& model::datum_in(record, "claimed_at_ms"@) is Null
    &&& model::datum_in(record, "consumed_at_ms"@) is Null
}

proof fn attempt_is_written(
    wanted: AttemptView,
    attempt: NewAttemptView,
    now_ms: i64,
    expires_ms: i64,
)
    ensures
        ({
            let op = oidc_attempts::insert_attempt_op(wanted, attempt, now_ms, expires_ms);
            &&& op.verb == Verb::Insert
            &&& op.table == "auth_login_attempts"@
            &&& waits(
                model::assigned(Map::empty(), op.values),
                wanted,
                attempt,
                now_ms,
                expires_ms,
            )
        }),
{
    let values = oidc_attempts::insert_attempt_op(wanted, attempt, now_ms, expires_ms).values;
    assert(values.len() == 13);
    reveal_strlit("attempt_id");
    reveal_strlit("state_hash");
    reveal_strlit("browser_binding_hash");
    reveal_strlit("nonce");
    reveal_strlit("pkce_verifier");
    reveal_strlit("purpose");
    reveal_strlit("existing_user_id");
    reveal_strlit("continuation_invitation_id");
    reveal_strlit("status");
    reveal_strlit("created_at_ms");
    reveal_strlit("expires_at_ms");
    reveal_strlit("claimed_at_ms");
    reveal_strlit("consumed_at_ms");
    assert("attempt_id"@.len() == 10 && "attempt_id"@[0] == 'a');
    assert("state_hash"@.len() == 10 && "state_hash"@[0] == 's');
    assert("browser_binding_hash"@.len() == 20);
    assert("nonce"@.len() == 5);
    assert("pkce_verifier"@.len() == 13 && "pkce_verifier"@[0] == 'p');
    assert("purpose"@.len() == 7);
    assert("existing_user_id"@.len() == 16);
    assert("continuation_invitation_id"@.len() == 26);
    assert("status"@.len() == 6);
    assert("created_at_ms"@.len() == 13 && "created_at_ms"@[0] == 'c' && "created_at_ms"@[1] == 'r');
    assert("expires_at_ms"@.len() == 13 && "expires_at_ms"@[0] == 'e');
    assert("claimed_at_ms"@.len() == 13 && "claimed_at_ms"@[0] == 'c' && "claimed_at_ms"@[1] == 'l');
    assert("consumed_at_ms"@.len() == 14);
    assert(values[0].0 == "attempt_id"@);
    assert(values[1].0 == "state_hash"@);
    assert(values[2].0 == "browser_binding_hash"@);
    assert(values[3].0 == "nonce"@);
    assert(values[4].0 == "pkce_verifier"@);
    assert(values[5].0 == "purpose"@);
    assert(values[6].0 == "existing_user_id"@);
    assert(values[7].0 == "continuation_invitation_id"@);
    assert(values[8].0 == "status"@);
    assert(values[9].0 == "created_at_ms"@);
    assert(values[10].0 == "expires_at_ms"@);
    assert(values[11].0 == "claimed_at_ms"@);
    assert(values[12].0 == "consumed_at_ms"@);
    model::inserted_values_hold(values);
}

/// Whether an attempt is all that was added to a store.
pub open spec fn attempt_added(
    before: Store,
    after: Store,
    wanted: AttemptView,
    attempt: NewAttemptView,
    now_ms: i64,
    expires_ms: i64,
) -> bool {
    exists|row: Record| #[trigger]
        waits(row, wanted, attempt, now_ms, expires_ms) && after == before.with_rows(
            "auth_login_attempts"@,
            before.rows("auth_login_attempts"@).push(row),
        )
}

proof fn attempt_is_stored(
    stage: Workflow<NewAttemptView, OidcAttemptError>,
    wanted: AttemptView,
    state: Seq<char>,
    now: Timestamp,
    expires: Timestamp,
    replies: Seq<Reply>,
    from: int,
    store: Store,
    attempt: NewAttemptView,
)
    requires
        forall|trace: Trace| #[trigger]
            stage(trace) == oidc_attempts::store_attempt_run(trace, wanted, state, now, expires),
        stages::underway(stage, replies, from, store, stages::anything()),
        stage(Trace { replies, at: from }).outcome == Outcome::<
            NewAttemptView,
            OidcAttemptError,
        >::Done(attempt),
    ensures
        attempt.state == state,
        game::millis_at(now) is Some,
        game::millis_at(expires) is Some,
        attempt_added(
            store,
            stages::stage_store(stage, replies, from, store, replies.len() as int),
            wanted,
            attempt,
            game::millis_at(now)->0,
            game::millis_at(expires)->0,
        ),
{
    let fits = stages::anything();
    let made = |id: Seq<char>, binding: Seq<u8>, nonce: Seq<u8>, verifier: Seq<u8>|
        NewAttemptView {
            attempt_id: id,
            state,
            browser_binding: crypto::hex_of(binding),
            nonce: crypto::hex_of(nonce),
            pkce_verifier: crypto::hex_of(verifier),
        };
    let finish = |attempt: NewAttemptView|
        |rows: Seq<Row>, trace: Trace|
            script::done::<NewAttemptView, OidcAttemptError>(trace, attempt);
    let verified = |id: Seq<char>, binding: Seq<u8>, nonce: Seq<u8>|
        |reply: Reply, trace: Trace|
            match reply {
                Reply::Bytes(bytes) if bytes@.len() == 32 => match (
                    game::millis_at(now),
                    game::millis_at(expires),
                ) {
                    (Some(now_ms), Some(expires_ms)) => script::query(
                        trace,
                        oidc_attempts::insert_attempt_op(
                            wanted,
                            made(id, binding, nonce, bytes@),
                            now_ms,
                            expires_ms,
                        ),
                        finish(made(id, binding, nonce, bytes@)),
                    ),
                    _ => script::fail(trace, OidcAttemptError::Timestamp),
                },
                _ => Run { outcome: Outcome::Mismatch(trace.at - 1), trace },
            };
    let nonced = |id: Seq<char>, binding: Seq<u8>|
        |reply: Reply, trace: Trace|
            match reply {
                Reply::Bytes(bytes) if bytes@.len() == 32 => if trace.spent() {
                    Run { outcome: Outcome::Wait(Ask::FreshBytes(32)), trace }
                } else {
                    verified(id, binding, bytes@)(trace.reply(), trace.next())
                },
                _ => Run { outcome: Outcome::Mismatch(trace.at - 1), trace },
            };
    let bound = |id: Seq<char>|
        |reply: Reply, trace: Trace|
            match reply {
                Reply::Bytes(bytes) if bytes@.len() == 32 => if trace.spent() {
                    Run { outcome: Outcome::Wait(Ask::FreshBytes(32)), trace }
                } else {
                    nonced(id, bytes@)(trace.reply(), trace.next())
                },
                _ => Run { outcome: Outcome::Mismatch(trace.at - 1), trace },
            };
    let drawn = |reply: Reply, trace: Trace|
        match reply {
            Reply::Ids(ids) if ids@.len() == 1 => if trace.spent() {
                Run { outcome: Outcome::Wait(Ask::FreshBytes(32)), trace }
            } else {
                bound(ids::id_text_of(ids@[0]))(trace.reply(), trace.next())
            },
            _ => Run { outcome: Outcome::Mismatch(trace.at - 1), trace },
        };
    assert forall|trace: Trace| #[trigger] stage(trace) == (if trace.spent() {
        Run { outcome: Outcome::Wait(Ask::FreshIds(1)), trace }
    } else {
        drawn(trace.reply(), trace.next())
    }) by {
        assert(stage(trace) == oidc_attempts::store_attempt_run(
            trace,
            wanted,
            state,
            now,
            expires,
        ));
    }
    stages::asks_outside(stage, Ask::FreshIds(1), drawn, replies, from, store, fits);
    let id = ids::id_text_of(replies[from]->Ids_0@[0]);
    let second: Workflow<NewAttemptView, OidcAttemptError> = |trace: Trace|
        drawn(replies[from], trace);
    assert(second(Trace { replies, at: from + 1 }).outcome is Done);
    stages::asks_outside(second, Ask::FreshBytes(32), bound(id), replies, from + 1, store, fits);
    let binding = replies[from + 1]->Bytes_0@;
    let third: Workflow<NewAttemptView, OidcAttemptError> = |trace: Trace|
        bound(id)(replies[from + 1], trace);
    assert(third(Trace { replies, at: from + 2 }).outcome is Done);
    stages::asks_outside(
        third,
        Ask::FreshBytes(32),
        nonced(id, binding),
        replies,
        from + 2,
        store,
        fits,
    );
    let nonce = replies[from + 2]->Bytes_0@;
    let fourth: Workflow<NewAttemptView, OidcAttemptError> = |trace: Trace|
        nonced(id, binding)(replies[from + 2], trace);
    assert(fourth(Trace { replies, at: from + 3 }).outcome is Done);
    stages::asks_outside(
        fourth,
        Ask::FreshBytes(32),
        verified(id, binding, nonce),
        replies,
        from + 3,
        store,
        fits,
    );
    let verifier = replies[from + 3]->Bytes_0@;
    let fifth: Workflow<NewAttemptView, OidcAttemptError> = |trace: Trace|
        verified(id, binding, nonce)(replies[from + 3], trace);
    assert(fifth(Trace { replies, at: from + 4 }).outcome is Done);
    let whole = made(id, binding, nonce, verifier);
    let now_ms = game::millis_at(now)->0;
    let expires_ms = game::millis_at(expires)->0;
    let op = oidc_attempts::insert_attempt_op(wanted, whole, now_ms, expires_ms);
    let done = stages::asks_store(fifth, op, finish(whole), replies, from + 4, store, fits);
    let last: Workflow<NewAttemptView, OidcAttemptError> = |trace: Trace|
        finish(whole)(done, trace);
    let after = model::executed(store, op).0;
    stages::nothing_more(last, replies, from + 5, after, replies.len() as int);
    attempt_is_written(wanted, whole, now_ms, expires_ms);
    assert(attempt == whole);
}

proof fn attempt_is_tried(
    stage: Workflow<NewAttemptView, OidcAttemptError>,
    wanted: AttemptView,
    now: Timestamp,
    expires: Timestamp,
    attempts: int,
    replies: Seq<Reply>,
    from: int,
    store: Store,
    attempt: NewAttemptView,
)
    requires
        forall|trace: Trace| #[trigger]
            stage(trace) == oidc_attempts::try_attempt_run(trace, wanted, now, expires, attempts),
        stages::underway(stage, replies, from, store, stages::anything()),
        stage(Trace { replies, at: from }).outcome == Outcome::<
            NewAttemptView,
            OidcAttemptError,
        >::Done(attempt),
    ensures
        game::millis_at(now) is Some,
        game::millis_at(expires) is Some,
        attempt_added(
            store,
            stages::stage_store(stage, replies, from, store, replies.len() as int),
            wanted,
            attempt,
            game::millis_at(now)->0,
            game::millis_at(expires)->0,
        ),
        forall|i: int|
            0 <= i < store.rows("auth_login_attempts"@).len() ==> model::datum_in(
                #[trigger] store.rows("auth_login_attempts"@)[i],
                "state_hash"@,
            ) != Datum::Text(crypto::token_hash_of(attempt.state)),
    decreases attempts,
{
    let fits = stages::anything();
    let start = Trace { replies, at: from };
    assert(stage(start) == oidc_attempts::try_attempt_run(start, wanted, now, expires, attempts));
    assert(attempts > 0);
    let lookup = |state: Seq<char>|
        Op::select("auth_login_attempts"@).where_text("state_hash"@, crypto::token_hash_of(state));
    let rest = |state: Seq<char>|
        |used: Seq<Row>, trace: Trace|
            if used.len() > 0 {
                oidc_attempts::try_attempt_run(trace, wanted, now, expires, attempts - 1)
            } else {
                oidc_attempts::store_attempt_run(trace, wanted, state, now, expires)
            };
    let drawn = |reply: Reply, trace: Trace|
        match reply {
            Reply::Bytes(bytes) if bytes@.len() == 32 => script::query(
                trace,
                lookup(crypto::hex_of(bytes@)),
                rest(crypto::hex_of(bytes@)),
            ),
            _ => Run { outcome: Outcome::Mismatch(trace.at - 1), trace },
        };
    assert forall|trace: Trace| #[trigger] stage(trace) == (if trace.spent() {
        Run { outcome: Outcome::Wait(Ask::FreshBytes(32)), trace }
    } else {
        drawn(trace.reply(), trace.next())
    }) by {
        assert(stage(trace) == oidc_attempts::try_attempt_run(
            trace,
            wanted,
            now,
            expires,
            attempts,
        ));
    }
    stages::asks_outside(stage, Ask::FreshBytes(32), drawn, replies, from, store, fits);
    let second: Workflow<NewAttemptView, OidcAttemptError> = |trace: Trace|
        drawn(replies[from], trace);
    assert(second(Trace { replies, at: from + 1 }).outcome is Done);
    let state = crypto::hex_of(replies[from]->Bytes_0@);
    let op = lookup(state);
    let used = stages::asks_store(second, op, rest(state), replies, from + 1, store, fits);
    let third: Workflow<NewAttemptView, OidcAttemptError> = |trace: Trace|
        rest(state)(used, trace);
    if used.len() > 0 {
        attempt_is_tried(
            third,
            wanted,
            now,
            expires,
            attempts - 1,
            replies,
            from + 2,
            store,
            attempt,
        );
    } else {
        attempt_is_stored(third, wanted, state, now, expires, replies, from + 2, store, attempt);
        let table = store.rows("auth_login_attempts"@);
        model::found_rows(table, op.filters);
        assert(model::executed(store, op).1 == model::found(table, op.filters));
        assert forall|i: int| 0 <= i < table.len() implies model::datum_in(
            #[trigger] table[i],
            "state_hash"@,
        ) != Datum::Text(crypto::token_hash_of(state)) by {
            if model::datum_in(table[i], "state_hash"@) == Datum::Text(
                crypto::token_hash_of(state),
            ) {
                assert(model::meets(table[i], op.filters[0]));
                assert(model::meets_all(table[i], op.filters));
            }
        }
    }
}

/// A new login attempt waits for the browser that it was made for, under a state that no attempt
/// had, with what it was made for, until its lifetime is over; the store is given digests of its
/// state and of the browser's secret, and nothing else was written. Only a migration names a user.
pub proof fn new_attempts_wait(
    wanted: AttemptView,
    now: Timestamp,
    lifetime: Span,
    replies: Seq<Reply>,
    store: Store,
    attempt: NewAttemptView,
)
    requires
        model::served(attempting(wanted, now, lifetime), replies, store),
        model::ending(attempting(wanted, now, lifetime), replies) == Outcome::<
            NewAttemptView,
            OidcAttemptError,
        >::Done(attempt),
    ensures
        lifetime.nanos > 0,
        wanted.existing_user_id is Some <==> wanted.purpose == OidcAttemptPurpose::MigratePassword,
        game::millis_at(now) is Some,
        game::moment_after(now, lifetime) is Some,
        game::millis_at(game::moment_after(now, lifetime)->0) is Some,
        attempt_added(
            store,
            model::store_after(attempting(wanted, now, lifetime), replies, store),
            wanted,
            attempt,
            game::millis_at(now)->0,
            game::millis_at(game::moment_after(now, lifetime)->0)->0,
        ),
        forall|i: int|
            0 <= i < store.rows("auth_login_attempts"@).len() ==> model::datum_in(
                #[trigger] store.rows("auth_login_attempts"@)[i],
                "state_hash"@,
            ) != Datum::Text(crypto::token_hash_of(attempt.state)),
{
    let workflow = attempting(wanted, now, lifetime);
    stages::whole_is_underway(workflow, replies, store, stages::anything());
    stages::whole_leaves(workflow, replies, store);
    assert(workflow(Trace { replies, at: 0 }).outcome is Done);
    let expires = game::moment_after(now, lifetime)->0;
    attempt_is_tried(workflow, wanted, now, expires, 4, replies, 0, store, attempt);
}

/// The attempts that wait under a state for a browser.
pub open spec fn waiting(store: Store, state: Seq<char>, binding: Seq<char>) -> Seq<Record> {
    model::found(
        store.rows("auth_login_attempts"@),
        seq![
            ("state_hash"@, Relation::Equal, Datum::Text(crypto::token_hash_of(state))),
            ("browser_binding_hash"@, Relation::Equal, Datum::Text(crypto::token_hash_of(binding))),
            ("status"@, Relation::Equal, Datum::Text("PENDING"@)),
        ],
    )
}

/// Whether a claimed attempt tells what a row holds.
pub open spec fn tells_attempt(claimed: ClaimedView, record: Record) -> bool {
    &&& model::datum_in(record, "attempt_id"@) == Datum::Text(claimed.attempt_id)
    &&& model::datum_in(record, "nonce"@) == Datum::Text(claimed.nonce)
    &&& model::datum_in(record, "pkce_verifier"@) == Datum::Text(claimed.pkce_verifier)
    &&& model::datum_in(record, "purpose"@) == Datum::Text(
        match claimed.purpose {
            OidcAttemptPurpose::Login => "LOGIN"@,
            OidcAttemptPurpose::MigratePassword => "MIGRATE_PASSWORD"@,
        },
    )
    &&& claimed.existing_user_id == (match model::datum_in(record, "existing_user_id"@) {
        Datum::Text(user) => Some(user),
        _ => None,
    })
    &&& claimed.continuation_invitation_id == (match model::datum_in(
        record,
        "continuation_invitation_id"@,
    ) {
        Datum::Text(invitation) => Some(invitation),
        _ => None,
    })
}

/// A claim gives back what the attempt was made with, and marks that attempt alone as claimed at
/// that moment.
pub proof fn claims_give_back_the_attempt(
    state: Seq<char>,
    binding: Seq<char>,
    now: Timestamp,
    replies: Seq<Reply>,
    store: Store,
    claimed: ClaimedView,
) -> (at: int)
    requires
        model::served(exactly_once::claiming(state, binding, now), replies, store),
        model::ending(exactly_once::claiming(state, binding, now), replies) == Outcome::<
            ClaimedView,
            OidcAttemptError,
        >::Done(claimed),
    ensures
        waiting(store, state, binding).len() > 0,
        tells_attempt(claimed, waiting(store, state, binding)[0]),
        game::millis_at(now) is Some,
        ({
            let before = store.rows("auth_login_attempts"@);
            let done = model::store_after(
                exactly_once::claiming(state, binding, now),
                replies,
                store,
            );
            let after = done.rows("auth_login_attempts"@);
            &&& after.len() == before.len()
            &&& 0 <= at < before.len()
            &&& model::datum_in(before[at], "attempt_id"@) == Datum::Text(claimed.attempt_id)
            &&& model::datum_in(before[at], "status"@) == Datum::Text("PENDING"@)
            &&& model::datum_in(after[at], "status"@) == Datum::Text("CLAIMED"@)
            &&& model::datum_in(after[at], "claimed_at_ms"@) == Datum::Integer(
                game::millis_at(now)->0 as int,
            )
            &&& forall|i: int| 0 <= i < before.len() && i != at ==> #[trigger] after[i] == before[i]
            &&& forall|table: Seq<char>|
                table != "auth_login_attempts"@ ==> #[trigger] done.rows(table) == store.rows(table)
        }),
{
    let fits = stages::anything();
    let stage = exactly_once::claiming(state, binding, now);
    stages::whole_is_underway(stage, replies, store, fits);
    stages::whole_leaves(stage, replies, store);
    let lookup = Op::select("auth_login_attempts"@).where_text(
        "state_hash"@,
        crypto::token_hash_of(state),
    ).where_text("browser_binding_hash"@, crypto::token_hash_of(binding)).where_text(
        "status"@,
        "PENDING"@,
    );
    let looked = |rows: Seq<Row>, trace: Trace|
        if rows.len() == 0 {
            script::fail(trace, OidcAttemptError::Invalid)
        } else {
            oidc_attempts::claim_row_run(trace, rows[0], state, now)
        };
    assert forall|trace: Trace| #[trigger] stage(trace) == script::query(
        trace,
        lookup,
        looked,
    ) by {}
    let rows = stages::asks_store(stage, lookup, looked, replies, 0, store, fits);
    let filters = seq![
        ("state_hash"@, Relation::Equal, Datum::Text(crypto::token_hash_of(state))),
        ("browser_binding_hash"@, Relation::Equal, Datum::Text(crypto::token_hash_of(binding))),
        ("status"@, Relation::Equal, Datum::Text("PENDING"@)),
    ];
    crate::dashboard_laws::filtered(lookup, filters, store);
    let second: Workflow<ClaimedView, OidcAttemptError> = |trace: Trace| looked(rows, trace);
    assert(second(Trace { replies, at: 1 }).outcome is Done);
    let row = rows[0];
    let record = waiting(store, state, binding)[0];
    model::shown_values(row, record, "attempt_id"@);
    model::shown_values(row, record, "purpose"@);
    model::shown_values(row, record, "nonce"@);
    model::shown_values(row, record, "pkce_verifier"@);
    model::shown_values(row, record, "existing_user_id"@);
    model::shown_values(row, record, "continuation_invitation_id"@);
    let attempt = oidc_attempts::attempt_row(row)->0;
    let now_ms = game::millis_at(now)->0;
    let op = oidc_attempts::claim_op(attempt.attempt_id, state, now_ms);
    let rest = |updated: Seq<Row>, trace: Trace|
        if updated.len() != 1 {
            script::fail(trace, OidcAttemptError::Invalid)
        } else {
            script::done(trace, attempt)
        };
    assert(second(Trace { replies, at: 1 }) == oidc_attempts::claim_row_run(
        Trace { replies, at: 1 },
        row,
        state,
        now,
    ));
    assert forall|trace: Trace| #[trigger] second(trace) == script::query(trace, op, rest) by {
        assert(second(trace) == oidc_attempts::claim_row_run(trace, row, state, now));
    }
    let updated = stages::asks_store(second, op, rest, replies, 1, store, fits);
    let third: Workflow<ClaimedView, OidcAttemptError> = |trace: Trace| rest(updated, trace);
    let done = model::executed(store, op).0;
    stages::nothing_more(third, replies, 2, done, replies.len() as int);
    let before = store.rows("auth_login_attempts"@);
    let after = done.rows("auth_login_attempts"@);
    assert(after == model::updated(before, op.filters, op.values));
    model::found_rows(before, op.filters);
    let at = choose|i: int|
        0 <= i < before.len() && model::meets_all(#[trigger] before[i], op.filters);
    assert(model::meets(before[at], op.filters[0]));
    assert(model::meets(before[at], op.filters[2]));
    assert forall|i: int| 0 <= i < before.len() && i != at implies #[trigger] after[i]
        == before[i] by {
        if model::meets_all(before[i], op.filters) {
            settings_laws::one_is_hit(before, op.filters, at, i);
        }
    }
    reveal_strlit("status");
    reveal_strlit("claimed_at_ms");
    assert("status"@.len() == 6);
    assert("claimed_at_ms"@.len() == 13);
    assert(op.values.len() == 2);
    model::assigned_sets(before[at], op.values, 0);
    model::assigned_sets(before[at], op.values, 1);
    at
}

/// Consuming a claimed attempt.
pub open spec fn consuming(attempt: Seq<char>, now: Timestamp) -> Workflow<(), OidcAttemptError> {
    |trace: Trace| oidc_attempts::consume_run(trace, attempt, now)
}

/// Consuming an attempt marks the claimed attempt with this identity, and no other, as consumed at
/// that moment.
pub proof fn consumed_attempts_were_claimed(
    attempt: Seq<char>,
    now: Timestamp,
    replies: Seq<Reply>,
    store: Store,
) -> (at: int)
    requires
        model::served(consuming(attempt, now), replies, store),
        model::ending(consuming(attempt, now), replies) is Done,
    ensures
        game::millis_at(now) is Some,
        ({
            let before = store.rows("auth_login_attempts"@);
            let done = model::store_after(consuming(attempt, now), replies, store);
            let after = done.rows("auth_login_attempts"@);
            &&& after.len() == before.len()
            &&& 0 <= at < before.len()
            &&& model::datum_in(before[at], "attempt_id"@) == Datum::Text(attempt)
            &&& model::datum_in(before[at], "status"@) == Datum::Text("CLAIMED"@)
            &&& model::datum_in(after[at], "status"@) == Datum::Text("CONSUMED"@)
            &&& model::datum_in(after[at], "consumed_at_ms"@) == Datum::Integer(
                game::millis_at(now)->0 as int,
            )
            &&& forall|i: int| 0 <= i < before.len() && i != at ==> #[trigger] after[i] == before[i]
        }),
{
    let stage = consuming(attempt, now);
    assert(replies.take(replies.len() as int) =~= replies);
    assert(stage(Trace { replies, at: 0 }).outcome is Done);
    let now_ms = game::millis_at(now)->0;
    let op = oidc_attempts::consume_op(attempt, now_ms);
    let rest = |updated: Seq<Row>, trace: Trace|
        if updated.len() != 1 {
            script::fail(trace, OidcAttemptError::Invalid)
        } else {
            script::done(trace, ())
        };
    assert forall|trace: Trace| #[trigger] stage(trace) == script::query(trace, op, rest) by {}
    profile_laws::one_statement_leaves(stage, op, rest, replies, store);
    stages::whole_is_underway(stage, replies, store, stages::anything());
    let updated = stages::asks_store(stage, op, rest, replies, 0, store, stages::anything());
    let before = store.rows("auth_login_attempts"@);
    let after = model::executed(store, op).0.rows("auth_login_attempts"@);
    assert(after == model::updated(before, op.filters, op.values));
    model::found_rows(before, op.filters);
    assert(model::found(before, op.filters).len() == 1);
    let at = choose|i: int|
        0 <= i < before.len() && model::meets_all(#[trigger] before[i], op.filters);
    assert(model::meets(before[at], op.filters[0]));
    assert(model::meets(before[at], op.filters[1]));
    assert forall|i: int| 0 <= i < before.len() && i != at implies #[trigger] after[i]
        == before[i] by {
        if model::meets_all(before[i], op.filters) {
            settings_laws::one_is_hit(before, op.filters, at, i);
        }
    }
    reveal_strlit("status");
    reveal_strlit("consumed_at_ms");
    assert("status"@.len() == 6);
    assert("consumed_at_ms"@.len() == 14);
    assert(op.values.len() == 2);
    model::assigned_sets(before[at], op.values, 0);
    model::assigned_sets(before[at], op.values, 1);
    at
}

/// Cleaning up attempts.
pub open spec fn cleaning(now: Timestamp) -> Workflow<(), OidcAttemptError> {
    |trace: Trace| oidc_attempts::cleanup_run(trace, now)
}

/// Whether an attempt is over: it was consumed, it has failed, or it has expired by then.
pub open spec fn over(record: Record, now_ms: i64) -> bool {
    ||| model::datum_in(record, "status"@) == Datum::Text("CONSUMED"@)
    ||| model::datum_in(record, "status"@) == Datum::Text("FAILED"@)
    ||| (model::datum_in(record, "expires_at_ms"@) matches Datum::Integer(expires_ms) && expires_ms
        <= now_ms)
}

/// Whether one of some attempts, from a place on, is over and bears the identity of a row.
pub open spec fn over_among(records: Seq<Record>, from: int, record: Record, now_ms: i64) -> bool {
    exists|i: int|
        from <= i < records.len() && over(#[trigger] records[i], now_ms) && model::datum_in(
            records[i],
            "attempt_id"@,
        ) == model::datum_in(record, "attempt_id"@)
}

proof fn left_are_those(
    rows: Seq<Record>,
    filters: Seq<(Seq<char>, Relation, Datum)>,
    record: Record,
)
    ensures
        model::left(rows, filters).contains(record) <==> rows.contains(record)
            && !model::meets_all(record, filters),
    decreases rows.len(),
{
    if rows.len() > 0 {
        let less = rows.drop_last();
        left_are_those(less, filters, record);
        let kept = model::left(less, filters);
        if rows.contains(record) {
            let i = choose|i: int| 0 <= i < rows.len() && rows[i] == record;
            if i < less.len() {
                assert(less[i] == record);
            }
        }
        if less.contains(record) {
            let i = choose|i: int| 0 <= i < less.len() && less[i] == record;
            assert(rows[i] == record);
        }
        if !model::meets_all(rows.last(), filters) {
            let all = kept.push(rows.last());
            if kept.contains(record) {
                let i = choose|i: int| 0 <= i < kept.len() && kept[i] == record;
                assert(all[i] == record);
            }
            if all.contains(record) {
                let i = choose|i: int| 0 <= i < all.len() && all[i] == record;
                if i < kept.len() {
                    assert(kept[i] == record);
                }
            }
            assert(all[kept.len() as int] == rows.last());
        }
        assert(rows[rows.len() - 1] == rows.last());
    }
}

proof fn rows_are_cleaned(
    stage: Workflow<(), OidcAttemptError>,
    rows: Seq<Row>,
    records: Seq<Record>,
    now_ms: i64,
    index: int,
    replies: Seq<Reply>,
    from: int,
    store: Store,
    record: Record,
)
    requires
        forall|trace: Trace| #[trigger]
            stage(trace) == oidc_attempts::cleanup_rows_run(trace, rows, now_ms, index),
        model::all_shown(rows, records),
        0 <= index <= rows.len(),
        stages::underway(stage, replies, from, store, stages::anything()),
        stage(Trace { replies, at: from }).outcome is Done,
    ensures
        ({
            let done = stages::stage_store(stage, replies, from, store, replies.len() as int);
            &&& done.rows("auth_login_attempts"@).contains(record) <==> store.rows(
                "auth_login_attempts"@,
            ).contains(record) && !over_among(records, index, record, now_ms)
            &&& forall|table: Seq<char>|
                table != "auth_login_attempts"@ ==> #[trigger] done.rows(table) == store.rows(table)
        }),
    decreases rows.len() - index,
{
    let fits = stages::anything();
    let start = Trace { replies, at: from };
    assert(stage(start) == oidc_attempts::cleanup_rows_run(start, rows, now_ms, index));
    let count = replies.len() as int;
    if index == rows.len() {
        assert forall|trace: Trace| !((#[trigger] stage(trace)).outcome is Wait) by {
            assert(stage(trace) == oidc_attempts::cleanup_rows_run(trace, rows, now_ms, index));
        }
        stages::nothing_more(stage, replies, from, store, count);
    } else {
        let row = rows[index];
        model::shown_values(row, records[index], "status"@);
        model::shown_values(row, records[index], "expires_at_ms"@);
        model::shown_values(row, records[index], "attempt_id"@);
        let status = row.text_at("status"@)->0;
        let expires_ms = row.integer_at("expires_at_ms"@)->0;
        assert(oidc_attempts::is_over(status, expires_ms, now_ms) <==> over(
            records[index],
            now_ms,
        ));
        if over(records[index], now_ms) {
            let id = row.text_at("attempt_id"@)->0;
            let op = Op::delete("auth_login_attempts"@).where_text("attempt_id"@, id);
            let rest = |deleted: Seq<Row>, trace: Trace|
                oidc_attempts::cleanup_rows_run(trace, rows, now_ms, index + 1);
            assert forall|trace: Trace| #[trigger] stage(trace) == script::query(
                trace,
                op,
                rest,
            ) by {
                assert(stage(trace) == oidc_attempts::cleanup_rows_run(
                    trace,
                    rows,
                    now_ms,
                    index,
                ));
            }
            let deleted = stages::asks_store(stage, op, rest, replies, from, store, fits);
            let next: Workflow<(), OidcAttemptError> = |trace: Trace| rest(deleted, trace);
            let middle = model::executed(store, op).0;
            rows_are_cleaned(
                next,
                rows,
                records,
                now_ms,
                index + 1,
                replies,
                from + 1,
                middle,
                record,
            );
            let table = store.rows("auth_login_attempts"@);
            left_are_those(table, op.filters, record);
            assert(middle.rows("auth_login_attempts"@) == model::left(table, op.filters));
            assert(model::meets(record, op.filters[0]) <==> model::datum_in(record, "attempt_id"@)
                == Datum::Text(id));
            assert(model::meets_all(record, op.filters) <==> model::meets(record, op.filters[0]));
        } else {
            assert forall|trace: Trace| #[trigger] stage(trace) == oidc_attempts::cleanup_rows_run(
                trace,
                rows,
                now_ms,
                index + 1,
            ) by {
                assert(stage(trace) == oidc_attempts::cleanup_rows_run(
                    trace,
                    rows,
                    now_ms,
                    index,
                ));
            }
            rows_are_cleaned(
                stage,
                rows,
                records,
                now_ms,
                index + 1,
                replies,
                from,
                store,
                record,
            );
        }
        assert(over_among(records, index, record, now_ms) <==> over_among(
            records,
            index + 1,
            record,
            now_ms,
        ) || (over(records[index], now_ms) && model::datum_in(records[index], "attempt_id"@)
            == model::datum_in(record, "attempt_id"@)));
    }
}

/// A clean-up deletes the attempts that are over, and keeps every other attempt.
pub proof fn cleaning_keeps_what_is_not_over(
    now: Timestamp,
    replies: Seq<Reply>,
    store: Store,
    record: Record,
)
    requires
        model::served(cleaning(now), replies, store),
        model::ending(cleaning(now), replies) is Done,
    ensures
        game::millis_at(now) is Some,
        ({
            let done = model::store_after(cleaning(now), replies, store);
            let before = store.rows("auth_login_attempts"@);
            &&& done.rows("auth_login_attempts"@).contains(record) <==> before.contains(record)
                && !over_among(before, 0, record, game::millis_at(now)->0)
            &&& forall|table: Seq<char>|
                table != "auth_login_attempts"@ ==> #[trigger] done.rows(table) == store.rows(table)
        }),
{
    let fits = stages::anything();
    let stage = cleaning(now);
    stages::whole_is_underway(stage, replies, store, fits);
    stages::whole_leaves(stage, replies, store);
    assert(stage(Trace { replies, at: 0 }).outcome is Done);
    let now_ms = game::millis_at(now)->0;
    let op = Op::select("auth_login_attempts"@);
    let rest = |rows: Seq<Row>, trace: Trace|
        oidc_attempts::cleanup_rows_run(trace, rows, now_ms, 0);
    assert forall|trace: Trace| #[trigger] stage(trace) == script::query(trace, op, rest) by {}
    let rows = stages::asks_store(stage, op, rest, replies, 0, store, fits);
    let before = store.rows("auth_login_attempts"@);
    every_row_is_found(before, op.filters);
    let second: Workflow<(), OidcAttemptError> = |trace: Trace| rest(rows, trace);
    rows_are_cleaned(second, rows, before, now_ms, 0, replies, 1, store, record);
}

proof fn every_row_is_found(rows: Seq<Record>, filters: Seq<(Seq<char>, Relation, Datum)>)
    requires
        filters.len() == 0,
    ensures
        model::found(rows, filters) == rows,
    decreases rows.len(),
{
    if rows.len() > 0 {
        every_row_is_found(rows.drop_last(), filters);
        assert(model::meets_all(rows.last(), filters));
        assert(rows.drop_last().push(rows.last()) =~= rows);
    }
}

} // verus!
