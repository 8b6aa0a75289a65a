//! What registering leaves behind, and who is let in by a password.
use crate::accounts::{self, AccountError};
use crate::dashboard_laws;
use crate::game::{self, Timestamp};
use crate::ids;
use crate::model::{self, Record, Store, Workflow};
use crate::read_back;
use crate::script::{self, Ask, Outcome, Reply, Run, Trace};
use crate::stages;
use crate::store::{self, Datum, Op, Relation, Row};
use crate::text;
use vstd::prelude::*;

verus! {

/// Whether a row is of a user who goes by a name since a moment.
pub open spec fn names_user(
    record: Record,
    user: Seq<char>,
    normalized: Seq<char>,
    display: Seq<char>,
    now_ms: i64,
) -> bool {
    &&& model::datum_in(record, "user_id"@) == Datum::Text(user)
    &&& model::datum_in(record, "username_normalized"@) == Datum::Text(normalized)
    &&& model::datum_in(record, "username_display"@) == Datum::Text(display)
    &&& model::datum_in(record, "created_at_ms"@) == Datum::Integer(now_ms as int)
}

/// Whether a row is the password of a user, as its hash.
pub open spec fn keeps_password(
    record: Record,
    user: Seq<char>,
    hash: Seq<char>,
    now_ms: i64,
) -> bool {
    &&& model::datum_in(record, "user_id"@) == Datum::Text(user)
    &&& model::datum_in(record, "password_hash"@) == Datum::Text(hash)
    &&& model::datum_in(record, "updated_at_ms"@) == Datum::Integer(now_ms as int)
}

proof fn account_columns_differ()
    ensures
        "user_id"@ != "username_normalized"@,
        "user_id"@ != "username_display"@,
        "user_id"@ != "created_at_ms"@,
        "user_id"@ != "password_hash"@,
        "user_id"@ != "updated_at_ms"@,
        "username_normalized"@ != "username_display"@,
        "username_normalized"@ != "created_at_ms"@,
        "username_display"@ != "created_at_ms"@,
        "password_hash"@ != "updated_at_ms"@,
        "users"@ != "password_credentials"@,
{
    reveal_strlit("user_id");
    reveal_strlit("username_normalized");
    reveal_strlit("username_display");
    reveal_strlit("created_at_ms");
    reveal_strlit("password_hash");
    reveal_strlit("updated_at_ms");
    reveal_strlit("users");
    reveal_strlit("password_credentials");
    assert("user_id"@.len() == 7);
    assert("username_normalized"@.len() == 19);
    assert("username_display"@.len() == 16);
    assert("created_at_ms"@.len() == 13);
    assert("password_hash"@.len() == 13 && "password_hash"@[0] == 'p');
    assert("updated_at_ms"@.len() == 13 && "updated_at_ms"@[0] == 'u');
    assert("users"@.len() == 5);
    assert("password_credentials"@.len() == 20);
}

/// Whether a user and the hash of the user's password are all that was added to a store.
pub open spec fn account_added(
    before: Store,
    after: Store,
    user: Seq<char>,
    normalized: Seq<char>,
    display: Seq<char>,
    hash: Seq<char>,
    now_ms: i64,
) -> bool {
    &&& exists|row: Record| #[trigger]
        names_user(row, user, normalized, display, now_ms) && after.rows("users"@)
            == before.rows("users"@).push(row)
    &&& exists|row: Record| #[trigger]
        keeps_password(row, user, hash, now_ms) && after.rows("password_credentials"@)
            == before.rows("password_credentials"@).push(row)
    &&& forall|table: Seq<char>|
        table != "users"@ && table != "password_credentials"@ ==> #[trigger] after.rows(table)
            == before.rows(table)
}

proof fn account_is_stored(
    stage: Workflow<Seq<char>, AccountError>,
    user: Seq<char>,
    normalized: Seq<char>,
    display: Seq<char>,
    hash: Seq<char>,
    now_ms: i64,
    replies: Seq<Reply>,
    from: int,
    store: Store,
)
    requires
        forall|trace: Trace| #[trigger]
            stage(trace) == accounts::store_account_run(
                trace,
                user,
                normalized,
                display,
                hash,
                now_ms,
            ),
        stages::underway(stage, replies, from, store, stages::anything()),
        stage(Trace { replies, at: from }).outcome is Done,
    ensures
        stage(Trace { replies, at: from }).outcome == Outcome::<Seq<char>, AccountError>::Done(
            user,
        ),
        account_added(
            store,
            stages::stage_store(stage, replies, from, store, replies.len() as int),
            user,
            normalized,
            display,
            hash,
            now_ms,
        ),
{
    let fits = stages::anything();
    let user_op = accounts::insert_user_op(user, normalized, display, now_ms);
    let password_op = accounts::insert_credential_op(user, hash, now_ms);
    let finish = |rows: Seq<Row>, trace: Trace|
        script::done::<Seq<char>, AccountError>(trace, user);
    let commit = |rows: Seq<Row>, trace: Trace| script::query(trace, Op::commit(), finish);
    let password = |rows: Seq<Row>, trace: Trace| script::query(trace, password_op, commit);
    let begin = |rows: Seq<Row>, trace: Trace| script::query(trace, user_op, password);
    assert forall|trace: Trace| #[trigger] stage(trace) == script::query(
        trace,
        Op::begin(),
        begin,
    ) by {
        assert(stage(trace) == accounts::store_account_run(
            trace,
            user,
            normalized,
            display,
            hash,
            now_ms,
        ));
    }
    let first = stages::asks_store(stage, Op::begin(), begin, replies, from, store, fits);
    let begun = model::executed(store, Op::begin()).0;
    let second: Workflow<Seq<char>, AccountError> = |trace: Trace| begin(first, trace);
    let inserted = stages::asks_store(second, user_op, password, replies, from + 1, begun, fits);
    let named = model::executed(begun, user_op).0;
    let third: Workflow<Seq<char>, AccountError> = |trace: Trace| password(inserted, trace);
    let kept = stages::asks_store(third, password_op, commit, replies, from + 2, named, fits);
    let filled = model::executed(named, password_op).0;
    let fourth: Workflow<Seq<char>, AccountError> = |trace: Trace| commit(kept, trace);
    let done = stages::asks_store(
        fourth,
        Op::commit(),
        finish,
        replies,
        from + 3,
        filled,
        fits,
    );
    let last: Workflow<Seq<char>, AccountError> = |trace: Trace| finish(done, trace);
    let after = model::executed(filled, Op::commit()).0;
    stages::nothing_more(last, replies, from + 4, after, replies.len() as int);
    account_columns_differ();
    let values = user_op.values;
    assert(values.len() == 4);
    model::assigned_sets(Map::empty(), values, 0);
    model::assigned_sets(Map::empty(), values, 1);
    model::assigned_sets(Map::empty(), values, 2);
    model::assigned_sets(Map::empty(), values, 3);
    let secrets = password_op.values;
    assert(secrets.len() == 3);
    model::assigned_sets(Map::empty(), secrets, 0);
    model::assigned_sets(Map::empty(), secrets, 1);
    model::assigned_sets(Map::empty(), secrets, 2);
    let row = model::assigned(Map::empty(), values);
    let secret = model::assigned(Map::empty(), secrets);
    assert(names_user(row, user, normalized, display, now_ms));
    assert(keeps_password(secret, user, hash, now_ms));
    assert(after.rows("users"@) == store.rows("users"@).push(row));
    assert(after.rows("password_credentials"@) == store.rows("password_credentials"@).push(secret));
}

/// A registered account is stored under its name, trimmed as it was written and normalized, with
/// the hash that was made of its password, which is long enough; nothing else was written.
pub proof fn registered_accounts_are_stored(
    username: Seq<char>,
    password: Seq<char>,
    now: Timestamp,
    replies: Seq<Reply>,
    store: Store,
    user: Seq<char>,
)
    requires
        model::served(read_back::registering(username, password, now), replies, store),
        model::ending(read_back::registering(username, password, now), replies) == Outcome::<
            Seq<char>,
            AccountError,
        >::Done(user),
    ensures
        accounts::byte_len(password) >= 12,
        accounts::normalized_username(username) is Some,
        game::millis_at(now) is Some,
        model::asked(read_back::registering(username, password, now), replies, 2) == Some(
            Ask::HashPassword(password),
        ),
        replies.len() > 2,
        replies[2] matches Reply::Text(hash) && account_added(
            store,
            model::store_after(read_back::registering(username, password, now), replies, store),
            user,
            accounts::normalized_username(username)->0,
            text::trimmed(username),
            hash@,
            game::millis_at(now)->0,
        ),
{
    let fits = stages::anything();
    let stage = read_back::registering(username, password, now);
    stages::whole_is_underway(stage, replies, store, fits);
    stages::whole_leaves(stage, replies, store);
    assert(stage(Trace { replies, at: 0 }).outcome is Done);
    let normalized = accounts::normalized_username(username)->0;
    let lookup = Op::select("users"@).where_text("username_normalized"@, normalized);
    let stored = |id: Seq<char>|
        |reply: Reply, trace: Trace|
            match reply {
                Reply::Refused(reason) => script::fail(trace, AccountError::PasswordHash),
                Reply::Text(hash) => match game::millis_at(now) {
                    None => script::fail(trace, AccountError::InvalidTimestamp),
                    Some(now_ms) => accounts::store_account_run(
                        trace,
                        id,
                        normalized,
                        text::trimmed(username),
                        hash@,
                        now_ms,
                    ),
                },
                _ => Run { outcome: Outcome::Mismatch(trace.at - 1), trace },
            };
    let drawn = |reply: Reply, trace: Trace|
        match reply {
            Reply::Ids(ids) if ids@.len() == 1 => if accounts::byte_len(password) < 12 {
                script::fail(trace, AccountError::WeakPassword)
            } else if trace.spent() {
                Run { outcome: Outcome::Wait(Ask::HashPassword(password)), trace }
            } else {
                stored(ids::id_text_of(ids@[0]))(trace.reply(), trace.next())
            },
            _ => Run { outcome: Outcome::Mismatch(trace.at - 1), trace },
        };
    let looked = |taken: Seq<Row>, trace: Trace|
        if taken.len() > 0 {
            script::fail(trace, AccountError::UsernameTaken)
        } else if trace.spent() {
            Run { outcome: Outcome::Wait(Ask::FreshIds(1)), trace }
        } else {
            drawn(trace.reply(), trace.next())
        };
    assert forall|trace: Trace| #[trigger] stage(trace) == script::query(
        trace,
        lookup,
        looked,
    ) by {}
    let taken = stages::asks_store(stage, lookup, looked, replies, 0, store, fits);
    let second: Workflow<Seq<char>, AccountError> = |trace: Trace| looked(taken, trace);
    assert(second(Trace { replies, at: 1 }).outcome is Done);
    stages::asks_outside(second, Ask::FreshIds(1), drawn, replies, 1, store, fits);
    let third: Workflow<Seq<char>, AccountError> = |trace: Trace| drawn(replies[1], trace);
    assert(third(Trace { replies, at: 2 }).outcome is Done);
    let id = ids::id_text_of(replies[1]->Ids_0@[0]);
    stages::asks_outside(
        third,
        Ask::HashPassword(password),
        stored(id),
        replies,
        2,
        store,
        fits,
    );
    let fourth: Workflow<Seq<char>, AccountError> = |trace: Trace|
        stored(id)(replies[2], trace);
    assert(fourth(Trace { replies, at: 3 }).outcome is Done);
    let hash = replies[2]->Text_0@;
    account_is_stored(
        fourth,
        id,
        normalized,
        text::trimmed(username),
        hash,
        game::millis_at(now)->0,
        replies,
        3,
        store,
    );
    let start = Trace { replies: replies.take(2), at: 0 };
    assert(start.replies[0] == replies[0]);
    assert(start.replies[1] == replies[1]);
}

/// The rows of the users with a name.
pub open spec fn named_users(store: Store, normalized: Seq<char>) -> Seq<Record> {
    model::found(
        store.rows("users"@),
        seq![("username_normalized"@, Relation::Equal, Datum::Text(normalized))],
    )
}

/// The password rows of a user.
pub open spec fn passwords(store: Store, user: Seq<char>) -> Seq<Record> {
    model::found(
        store.rows("password_credentials"@),
        seq![("user_id"@, Relation::Equal, Datum::Text(user))],
    )
}

/// Whoever is let in by a password is the user with the name, and the password matches the hash
/// that is stored for that user. A hash of an old profile is replaced by one of the same password,
/// and otherwise nothing is written.
pub proof fn passwords_let_their_users_in(
    username: Seq<char>,
    password: Seq<char>,
    replies: Seq<Reply>,
    store: Store,
    user: Seq<char>,
)
    requires
        model::served(read_back::authenticating(username, password), replies, store),
        model::ending(read_back::authenticating(username, password), replies) == Outcome::<
            Seq<char>,
            AccountError,
        >::Done(user),
    ensures
        accounts::normalized_username(username) is Some,
        ({
            let users = named_users(store, accounts::normalized_username(username)->0);
            users.len() > 0 && model::datum_in(users[0], "user_id"@) == Datum::Text(user)
        }),
        passwords(store, user).len() > 0,
        model::datum_in(passwords(store, user)[0], "password_hash"@) matches Datum::Text(stored)
            && accounts::password_check(password, stored) == Some(true) && ({
            let after = model::store_after(
                read_back::authenticating(username, password),
                replies,
                store,
            );
            if accounts::needs_upgrade(stored) {
                &&& model::asked(read_back::authenticating(username, password), replies, 2) == Some(
                    Ask::HashPassword(password),
                )
                &&& replies.len() > 2
                &&& replies[2] matches Reply::Text(hash)
                &&& after == store.with_rows(
                    "password_credentials"@,
                    model::updated(
                        store.rows("password_credentials"@),
                        seq![("user_id"@, Relation::Equal, Datum::Text(user))],
                        seq![("password_hash"@, Datum::Text(hash@))],
                    ),
                )
            } else {
                after == store
            }
        }),
{
    let fits = stages::anything();
    let stage = read_back::authenticating(username, password);
    stages::whole_is_underway(stage, replies, store, fits);
    stages::whole_leaves(stage, replies, store);
    assert(stage(Trace { replies, at: 0 }).outcome is Done);
    let normalized = accounts::normalized_username(username)->0;
    let lookup = Op::select("users"@).where_text("username_normalized"@, normalized);
    let credentials = |id: Seq<char>|
        Op::select("password_credentials"@).where_text("user_id"@, id);
    let checked = |id: Seq<char>|
        |rows: Seq<Row>, trace: Trace|
            match store::first_text_of(rows, "password_hash"@) {
                None => script::fail(trace, AccountError::InvalidCredentials),
                Some(stored) => accounts::check_credential_run(trace, id, stored, password),
            };
    let looked = |users: Seq<Row>, trace: Trace|
        match store::first_text_of(users, "user_id"@) {
            None => script::fail(trace, AccountError::InvalidCredentials),
            Some(id) => script::query(trace, credentials(id), checked(id)),
        };
    assert forall|trace: Trace| #[trigger] stage(trace) == script::query(
        trace,
        lookup,
        looked,
    ) by {
        if !trace.spent() {
            if let Reply::Rows(rows) = trace.reply() {
                if let Some(id) = store::first_text_of(rows@, "user_id"@) {
                    let inner = |rows: Seq<Row>, trace: Trace|
                        match store::first_text_of(rows, "password_hash"@) {
                            None => script::fail(trace, AccountError::InvalidCredentials),
                            Some(stored) => accounts::check_credential_run(
                                trace,
                                id,
                                stored,
                                password,
                            ),
                        };
                    assert(inner =~= checked(id));
                }
            }
        }
    }
    let users = stages::asks_store(stage, lookup, looked, replies, 0, store, fits);
    dashboard_laws::filtered(
        lookup,
        seq![("username_normalized"@, Relation::Equal, Datum::Text(normalized))],
        store,
    );
    let second: Workflow<Seq<char>, AccountError> = |trace: Trace| looked(users, trace);
    assert(second(Trace { replies, at: 1 }).outcome is Done);
    let id = store::first_text_of(users, "user_id"@)->0;
    model::shown_values(users[0], named_users(store, normalized)[0], "user_id"@);
    let rows = stages::asks_store(second, credentials(id), checked(id), replies, 1, store, fits);
    dashboard_laws::filtered(
        credentials(id),
        seq![("user_id"@, Relation::Equal, Datum::Text(id))],
        store,
    );
    let third: Workflow<Seq<char>, AccountError> = |trace: Trace| checked(id)(rows, trace);
    assert(third(Trace { replies, at: 2 }).outcome is Done);
    let stored = store::first_text_of(rows, "password_hash"@)->0;
    model::shown_values(rows[0], passwords(store, id)[0], "password_hash"@);
    let count = replies.len() as int;
    if accounts::needs_upgrade(stored) {
        let finish = |rows: Seq<Row>, trace: Trace|
            script::done::<Seq<char>, AccountError>(trace, id);
        let hashed = |reply: Reply, trace: Trace|
            match reply {
                Reply::Refused(reason) => script::fail(trace, AccountError::PasswordHash),
                Reply::Text(hash) => script::query(
                    trace,
                    accounts::upgrade_hash_op(id, hash@),
                    finish,
                ),
                _ => Run { outcome: Outcome::Mismatch(trace.at - 1), trace },
            };
        assert forall|trace: Trace| #[trigger] third(trace) == (if trace.spent() {
            Run { outcome: Outcome::Wait(Ask::HashPassword(password)), trace }
        } else {
            hashed(trace.reply(), trace.next())
        }) by {}
        stages::asks_outside(third, Ask::HashPassword(password), hashed, replies, 2, store, fits);
        let fourth: Workflow<Seq<char>, AccountError> = |trace: Trace| hashed(replies[2], trace);
        assert(fourth(Trace { replies, at: 3 }).outcome is Done);
        let hash = replies[2]->Text_0@;
        let op = accounts::upgrade_hash_op(id, hash);
        let done = stages::asks_store(fourth, op, finish, replies, 3, store, fits);
        let last: Workflow<Seq<char>, AccountError> = |trace: Trace| finish(done, trace);
        let after = model::executed(store, op).0;
        stages::nothing_more(last, replies, 4, after, count);
        assert(op.filters =~= seq![("user_id"@, Relation::Equal, Datum::Text(id))]);
        assert(op.values =~= seq![("password_hash"@, Datum::Text(hash))]);
        let start = Trace { replies: replies.take(2), at: 0 };
        assert(start.replies[0] == replies[0]);
        assert(start.replies[1] == replies[1]);
    } else {
        assert forall|trace: Trace| !((#[trigger] third(trace)).outcome is Wait) by {}
        stages::nothing_more(third, replies, 2, store, count);
    }
}

} // verus!
