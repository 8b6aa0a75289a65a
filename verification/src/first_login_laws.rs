//! What the first login through a provider promises to the next ones.
use crate::account_laws;
use crate::accounts;
use crate::external_identities::{self, ExternalIdentityError, IdentityView};
use crate::game::{self, Timestamp};
use crate::identity_laws;
use crate::ids;
use crate::model::{self, Record, Store, Workflow};
use crate::profiles::{self, AvatarSource, ProfileError, ProfileFieldSource, ProfileView};
use crate::script::{self, Ask, Outcome, Reply, Run, Trace};
use crate::stages;
use crate::steady;
use crate::store::{Datum, Op, Row};
use vstd::prelude::*;

verus! {

/// Whether a store links an identity to nobody.
pub open spec fn is_new(store: Store, identity: IdentityView) -> bool {
    forall|i: int|
        0 <= i < store.rows("external_identities"@).len() ==> !identity_laws::links(
            #[trigger] store.rows("external_identities"@)[i],
            identity.issuer,
            identity.subject,
        )
}

/// Whether no row of a table is of a user.
pub open spec fn unknown_in(store: Store, table: Seq<char>, user_id: Seq<char>) -> bool {
    forall|i: int|
        0 <= i < store.rows(table).len() ==> !account_laws::of_user(
            #[trigger] store.rows(table)[i],
            user_id,
        )
}

/// What the account of a new identity adds to a store.
pub open spec fn with_account(
    store: Store,
    after: Store,
    user_id: Seq<char>,
    handle: Seq<char>,
    display_name: Seq<char>,
    identity: IdentityView,
    link_id: Seq<char>,
    now_ms: i64,
) -> bool {
    &&& after.rows("users"@) == store.rows("users"@).push(
        model::assigned(
            Map::empty(),
            accounts::insert_user_op(user_id, handle, handle, now_ms).values,
        ),
    )
    &&& after.rows("user_profiles"@) == store.rows("user_profiles"@).push(
        model::assigned(
            Map::empty(),
            profiles::insert_profile_op(
                user_id,
                display_name,
                identity.picture_url,
                now_ms,
            ).values,
        ),
    )
    &&& after.rows("external_identities"@) == store.rows("external_identities"@).push(
        model::assigned(
            Map::empty(),
            external_identities::insert_identity_op(link_id, identity, user_id, now_ms).values,
        ),
    )
    &&& forall|table: Seq<char>|
        table != "users"@ && table != "user_profiles"@ && table != "external_identities"@
            ==> #[trigger] after.rows(table) == store.rows(table)
}

proof fn account_tables_differ()
    ensures
        "users"@ != "user_profiles"@,
        "users"@ != "external_identities"@,
        "user_profiles"@ != "external_identities"@,
{
    reveal_strlit("users");
    reveal_strlit("user_profiles");
    reveal_strlit("external_identities");
    assert("users"@.len() == 5);
    assert("user_profiles"@.len() == 13);
    assert("external_identities"@.len() == 19);
}

/// Storing the account of an identity.
spec fn storing(
    user_id: Seq<char>,
    handle: Seq<char>,
    display_name: Seq<char>,
    identity: IdentityView,
    now_ms: i64,
) -> Workflow<(), ExternalIdentityError> {
    |trace: Trace|
        external_identities::store_account_run(
            trace,
            user_id,
            handle,
            display_name,
            identity,
            now_ms,
        )
}

proof fn storing_is_in_order(
    user_id: Seq<char>,
    handle: Seq<char>,
    display_name: Seq<char>,
    identity: IdentityView,
    now_ms: i64,
    replies: Seq<Reply>,
    from: int,
)
    requires
        0 <= from,
    ensures
        stages::in_order(
            storing(user_id, handle, display_name, identity, now_ms),
            replies,
            from,
        ),
{
    let stage = storing(user_id, handle, display_name, identity, now_ms);
    assert forall|cut: int| 0 <= cut <= replies.len() implies steady::steady(
        stage(Trace { replies, at: from }),
        #[trigger] stages::stage_run(stage, replies, from, cut),
        replies,
        from,
        cut,
    ) by {
        assert forall|k: int| from <= k < cut implies replies.take(cut)[k]
            == #[trigger] replies[k] by {}
    }
}

/// Storing an account ends well, and adds it to the store.
proof fn account_is_added(
    user_id: Seq<char>,
    handle: Seq<char>,
    display_name: Seq<char>,
    identity: IdentityView,
    now_ms: i64,
    replies: Seq<Reply>,
    from: int,
    store: Store,
)
    requires
        stages::underway(
            storing(user_id, handle, display_name, identity, now_ms),
            replies,
            from,
            store,
            stages::anything(),
        ),
        !(storing(user_id, handle, display_name, identity, now_ms)(
            Trace { replies, at: from },
        ).outcome is Mismatch),
    ensures
        storing(user_id, handle, display_name, identity, now_ms)(Trace { replies, at: from })
            == script::done::<(), ExternalIdentityError>(Trace { replies, at: from + 4 }, ()),
        from + 4 <= replies.len(),
        replies[from + 2] is Ids && replies[from + 2]->Ids_0@.len() == 1,
        with_account(
            store,
            stages::stage_store(
                storing(user_id, handle, display_name, identity, now_ms),
                replies,
                from,
                store,
                from + 4,
            ),
            user_id,
            handle,
            display_name,
            identity,
            ids::id_text_of(replies[from + 2]->Ids_0@[0]),
            now_ms,
        ),
{
    let stage = storing(user_id, handle, display_name, identity, now_ms);
    let user = accounts::insert_user_op(user_id, handle, handle, now_ms);
    let profile = profiles::insert_profile_op(user_id, display_name, identity.picture_url, now_ms);
    let insert = |id: Seq<char>|
        external_identities::insert_identity_op(id, identity, user_id, now_ms);
    let end = |rows: Seq<Row>, trace: Trace| script::done::<(), ExternalIdentityError>(trace, ());
    let drawn = |reply: Reply, trace: Trace|
        match reply {
            Reply::Ids(ids) if ids@.len() == 1 => script::query(
                trace,
                insert(ids::id_text_of(ids@[0])),
                end,
            ),
            _ => Run { outcome: Outcome::Mismatch(trace.at - 1), trace },
        };
    let drawing = |rows: Seq<Row>, trace: Trace|
        if trace.spent() {
            Run { outcome: Outcome::Wait(Ask::FreshIds(1)), trace }
        } else {
            drawn(trace.reply(), trace.next())
        };
    let describing = |rows: Seq<Row>, trace: Trace| script::query(trace, profile, drawing);
    assert forall|trace: Trace| #[trigger] stage(trace) == script::query(
        trace,
        user,
        describing,
    ) by {
    }
    let r0 = stages::asks_store(stage, user, describing, replies, from, store, stages::anything());
    let s1 = model::executed(store, user).0;
    let second: Workflow<(), ExternalIdentityError> = |trace: Trace| describing(r0, trace);
    let r1 = stages::asks_store(second, profile, drawing, replies, from + 1, s1, stages::anything());
    let s2 = model::executed(s1, profile).0;
    let third: Workflow<(), ExternalIdentityError> = |trace: Trace| drawing(r1, trace);
    stages::asks_outside(third, Ask::FreshIds(1), drawn, replies, from + 2, s2, stages::anything());
    let fourth: Workflow<(), ExternalIdentityError> = |trace: Trace|
        drawn(replies[from + 2], trace);
    let id = ids::id_text_of(replies[from + 2]->Ids_0@[0]);
    let r3 = stages::asks_store(fourth, insert(id), end, replies, from + 3, s2, stages::anything());
    let s3 = model::executed(s2, insert(id)).0;
    let last: Workflow<(), ExternalIdentityError> = |trace: Trace| end(r3, trace);
    assert(stages::stage_store(last, replies, from + 4, s3, from + 4) == s3);
    account_tables_differ();
    assert forall|table: Seq<char>|
        table != "users"@ && table != "user_profiles"@ && table
            != "external_identities"@ implies #[trigger] s3.rows(table) == store.rows(table) by {
        assert(s1.rows(table) == store.rows(table));
        assert(s2.rows(table) == s1.rows(table));
    }
}

/// What a first login does with an identity that nobody is linked to: it makes the account of a
/// new user, under a handle that nobody had.
proof fn first_login_adds_an_account(
    identity: IdentityView,
    now: Timestamp,
    replies: Seq<Reply>,
    store: Store,
    resolved: (Seq<char>, bool),
) -> (made: (Seq<char>, Seq<char>))
    requires
        is_new(store, identity),
        model::served(identity_laws::resolving(identity, now), replies, store),
        model::ending(identity_laws::resolving(identity, now), replies) == Outcome::<
            (Seq<char>, bool),
            ExternalIdentityError,
        >::Done(resolved),
    ensures
        resolved.1,
        external_identities::valid_identity(identity),
        game::millis_at(now) is Some,
        profiles::normalized_display_name(identity.display_name) is Some,
        !account_laws::name_taken(store, made.0),
        with_account(
            store,
            model::store_after(identity_laws::resolving(identity, now), replies, store),
            resolved.0,
            made.0,
            profiles::normalized_display_name(identity.display_name)->0,
            identity,
            made.1,
            game::millis_at(now)->0,
        ),
{
    let fits = stages::anything();
    let workflow = identity_laws::resolving(identity, now);
    stages::whole_is_underway(workflow, replies, store, fits);
    stages::whole_leaves(workflow, replies, store);
    let lookup = identity_laws::identity_op(identity.issuer, identity.subject);
    let known = |user: Option<Seq<char>>, trace: Trace|
        match user {
            Some(user_id) => external_identities::refresh_run(trace, user_id, identity, now),
            None => external_identities::introduce_run(trace, identity, now),
        };
    let looked = |rows: Seq<Row>, trace: Trace|
        if rows.len() == 0 {
            known(None, trace)
        } else {
            match rows[0].text_at("user_id"@) {
                Some(user_id) => known(Some(user_id), trace),
                None => script::fail(trace, ExternalIdentityError::Malformed),
            }
        };
    assert forall|trace: Trace| #[trigger] workflow(trace) == script::query(
        trace,
        lookup,
        looked,
    ) by {}
    let rows = stages::asks_store(workflow, lookup, looked, replies, 0, store, fits);
    let table = store.rows("external_identities"@);
    model::found_rows(table, lookup.filters);
    if rows.len() > 0 {
        let i = choose|i: int|
            0 <= i < table.len() && model::meets_all(#[trigger] table[i], lookup.filters);
        assert(model::meets(table[i], lookup.filters[0]));
        assert(model::meets(table[i], lookup.filters[1]));
        assert(identity_laws::links(table[i], identity.issuer, identity.subject));
    }
    let second: Workflow<(Seq<char>, bool), ExternalIdentityError> = |trace: Trace|
        looked(rows, trace);
    assert forall|trace: Trace| #[trigger] second(trace) == introducing(identity, now)(trace) by {}
    stages::same_underway(second, introducing(identity, now), replies, 1, store, fits);
    assert(second =~= introducing(identity, now));
    let made = introduction_adds_an_account(identity, now, replies, 1, store, resolved);
    let count = replies.len() as int;
    assert(stages::stage_store(workflow, replies, 0, store, count) == stages::stage_store(
        second,
        replies,
        1,
        store,
        count,
    ));
    made
}

/// Making the account of an identity that has none.
spec fn introducing(identity: IdentityView, now: Timestamp) -> Workflow<
    (Seq<char>, bool),
    ExternalIdentityError,
> {
    |trace: Trace| external_identities::introduce_run(trace, identity, now)
}

#[verifier::rlimit(60)]
proof fn introduction_adds_an_account(
    identity: IdentityView,
    now: Timestamp,
    replies: Seq<Reply>,
    from: int,
    store: Store,
    resolved: (Seq<char>, bool),
) -> (made: (Seq<char>, Seq<char>))
    requires
        stages::underway(introducing(identity, now), replies, from, store, stages::anything()),
        introducing(identity, now)(Trace { replies, at: from }).outcome == Outcome::<
            (Seq<char>, bool),
            ExternalIdentityError,
        >::Done(resolved),
    ensures
        resolved.1,
        game::millis_at(now) is Some,
        profiles::normalized_display_name(identity.display_name) is Some,
        !account_laws::name_taken(store, made.0),
        with_account(
            store,
            stages::stage_store(
                introducing(identity, now),
                replies,
                from,
                store,
                replies.len() as int,
            ),
            resolved.0,
            made.0,
            profiles::normalized_display_name(identity.display_name)->0,
            identity,
            made.1,
            game::millis_at(now)->0,
        ),
{
    let fits = stages::anything();
    let second = introducing(identity, now);
    let naming = account_laws::naming(identity.display_name, 8);
    let created = |handle: Seq<char>, user_id: Seq<char>, trace: Trace|
        external_identities::create_account_run(
            trace,
            user_id,
            handle,
            profiles::normalized_display_name(identity.display_name)->0,
            identity,
            game::millis_at(now)->0,
        );
    let drawn = |handle: Seq<char>|
        |reply: Reply, trace: Trace|
            match reply {
                Reply::Ids(ids) if ids@.len() == 1 => match game::millis_at(now) {
                    None => script::fail(trace, ExternalIdentityError::Timestamp),
                    Some(now_ms) => created(handle, ids::id_text_of(ids@[0]), trace),
                },
                _ => Run { outcome: Outcome::Mismatch(trace.at - 1), trace },
            };
    let named = |handle: Seq<char>, trace: Trace|
        match profiles::normalized_display_name(identity.display_name) {
            None => script::fail(
                trace,
                ExternalIdentityError::Profile(ProfileError::InvalidDisplayName),
            ),
            Some(display_name) => if trace.spent() {
                Run { outcome: Outcome::Wait(Ask::FreshIds(1)), trace }
            } else {
                drawn(handle)(trace.reply(), trace.next())
            },
        };
    account_laws::naming_is_in_order(identity.display_name, 8, replies, from);
    assert forall|trace: Trace|
        match naming(trace).outcome {
            Outcome::Wait(ask) => (#[trigger] second(trace)).outcome == Outcome::<
                (Seq<char>, bool),
                ExternalIdentityError,
            >::Wait(ask),
            Outcome::Done(handle) => second(trace) == named(handle, naming(trace).trace),
            _ => true,
        } by {
        assert(second(trace) == external_identities::introduce_run(trace, identity, now));
    }
    stages::goes_through(second, naming, named, replies, from, store, fits);
    let start = Trace { replies, at: from };
    assert(second(start) == external_identities::introduce_run(start, identity, now));
    assert(naming(start).outcome is Done);
    let handle = naming(start).outcome->Done_0;
    let mid = naming(start).trace.at;
    let between = stages::stage_store(naming, replies, from, store, mid);
    account_laws::handle_is_free(
        identity.display_name,
        8,
        replies,
        from,
        store,
        handle,
        mid,
        between,
    );
    let third: Workflow<(Seq<char>, bool), ExternalIdentityError> = |trace: Trace|
        named(handle, trace);
    assert(profiles::normalized_display_name(identity.display_name) is Some);
    stages::asks_outside(third, Ask::FreshIds(1), drawn(handle), replies, mid, store, fits);
    let fourth: Workflow<(Seq<char>, bool), ExternalIdentityError> = |trace: Trace|
        drawn(handle)(replies[mid], trace);
    let user_id = ids::id_text_of(replies[mid]->Ids_0@[0]);
    let fifth = creating(
        user_id,
        handle,
        profiles::normalized_display_name(identity.display_name)->0,
        identity,
        game::millis_at(now)->0,
    );
    assert forall|trace: Trace| #[trigger] fourth(trace) == fifth(trace) by {}
    assert(fourth(Trace { replies, at: mid + 1 }).outcome is Done);
    stages::same_underway(fourth, fifth, replies, mid + 1, store, fits);
    assert(fourth =~= fifth);
    let link_id = account_is_created(
        user_id,
        handle,
        profiles::normalized_display_name(identity.display_name)->0,
        identity,
        game::millis_at(now)->0,
        replies,
        mid + 1,
        store,
        resolved,
    );
    let count = replies.len() as int;
    assert(stages::stage_store(second, replies, from, store, count) == stages::stage_store(
        third,
        replies,
        mid,
        store,
        count,
    ));
    assert(stages::stage_store(third, replies, mid, store, count) == stages::stage_store(
        fourth,
        replies,
        mid + 1,
        store,
        count,
    ));
    (handle, link_id)
}

/// Making an account in one transaction.
spec fn creating(
    user_id: Seq<char>,
    handle: Seq<char>,
    display_name: Seq<char>,
    identity: IdentityView,
    now_ms: i64,
) -> Workflow<(Seq<char>, bool), ExternalIdentityError> {
    |trace: Trace|
        external_identities::create_account_run(
            trace,
            user_id,
            handle,
            display_name,
            identity,
            now_ms,
        )
}

proof fn account_is_created(
    user_id: Seq<char>,
    handle: Seq<char>,
    display_name: Seq<char>,
    identity: IdentityView,
    now_ms: i64,
    replies: Seq<Reply>,
    from: int,
    store: Store,
    resolved: (Seq<char>, bool),
) -> (link_id: Seq<char>)
    requires
        stages::underway(
            creating(user_id, handle, display_name, identity, now_ms),
            replies,
            from,
            store,
            stages::anything(),
        ),
        external_identities::create_account_run(
            Trace { replies, at: from },
            user_id,
            handle,
            display_name,
            identity,
            now_ms,
        ).outcome == Outcome::<(Seq<char>, bool), ExternalIdentityError>::Done(resolved),
    ensures
        resolved == (user_id, true),
        with_account(
            store,
            stages::stage_store(
                creating(user_id, handle, display_name, identity, now_ms),
                replies,
                from,
                store,
                replies.len() as int,
            ),
            user_id,
            handle,
            display_name,
            identity,
            link_id,
            now_ms,
        ),
{
    let fits = stages::anything();
    let stage = creating(user_id, handle, display_name, identity, now_ms);
    let first = storing(user_id, handle, display_name, identity, now_ms);
    let winner = |number: int, trace: Trace|
        script::chain(
            external_identities::user_for_identity_run(trace, identity.issuer, identity.subject),
            |winner: Option<Seq<char>>, trace: Trace|
                match winner {
                    Some(winner) => script::done::<(Seq<char>, bool), ExternalIdentityError>(
                        trace,
                        (winner, false),
                    ),
                    None => Run { outcome: Outcome::Failed(number), trace },
                },
        );
    let end = |rows: Seq<Row>, trace: Trace|
        script::done::<(Seq<char>, bool), ExternalIdentityError>(trace, (user_id, true));
    let commit = |stored: (), trace: Trace| script::query(trace, Op::commit(), end);
    let begun = |rows: Seq<Row>, trace: Trace|
        {
            let stored = first(trace);
            match stored.outcome {
                Outcome::Failed(number) => script::perform(
                    stored.trace,
                    Op::rollback(),
                    |trace: Trace| winner(number, trace),
                ),
                _ => script::chain(stored, commit),
            }
        };
    assert forall|trace: Trace| #[trigger] stage(trace) == script::query(
        trace,
        Op::begin(),
        begun,
    ) by {}
    let r0 = stages::asks_store(stage, Op::begin(), begun, replies, from, store, fits);
    let s1 = model::executed(store, Op::begin()).0;
    let second: Workflow<(Seq<char>, bool), ExternalIdentityError> = |trace: Trace|
        begun(r0, trace);
    storing_is_in_order(user_id, handle, display_name, identity, now_ms, replies, from + 1);
    assert forall|trace: Trace|
        match first(trace).outcome {
            Outcome::Wait(ask) => (#[trigger] second(trace)).outcome == Outcome::<
                (Seq<char>, bool),
                ExternalIdentityError,
            >::Wait(ask),
            Outcome::Done(value) => second(trace) == commit(value, first(trace).trace),
            _ => true,
        } by {}
    stages::goes_through(second, first, commit, replies, from + 1, s1, fits);
    assert(!(first(Trace { replies, at: from + 1 }).outcome is Mismatch));
    account_is_added(
        user_id,
        handle,
        display_name,
        identity,
        now_ms,
        replies,
        from + 1,
        s1,
    );
    let mid = from + 5;
    let between = stages::stage_store(first, replies, from + 1, s1, mid);
    let third: Workflow<(Seq<char>, bool), ExternalIdentityError> = |trace: Trace|
        commit((), trace);
    let r2 = stages::asks_store(third, Op::commit(), end, replies, mid, between, fits);
    let s3 = model::executed(between, Op::commit()).0;
    let last: Workflow<(Seq<char>, bool), ExternalIdentityError> = |trace: Trace| end(r2, trace);
    let count = replies.len() as int;
    stages::nothing_more(last, replies, mid + 1, s3, count);
    assert(stages::stage_store(stage, replies, from, store, count) == stages::stage_store(
        second,
        replies,
        from + 1,
        s1,
        count,
    ));
    assert(stages::stage_store(second, replies, from + 1, s1, count) == stages::stage_store(
        third,
        replies,
        mid,
        between,
        count,
    ));
    assert(stages::stage_store(third, replies, mid, between, count) == s3);
    assert(forall|table: Seq<char>| #[trigger] s1.rows(table) == store.rows(table));
    assert(forall|table: Seq<char>| #[trigger] s3.rows(table) == between.rows(table));
    ids::id_text_of(replies[from + 3]->Ids_0@[0])
}

/// The account of an identity is what the identity resolves to.
proof fn account_is_linked(
    store: Store,
    after: Store,
    user_id: Seq<char>,
    handle: Seq<char>,
    display_name: Seq<char>,
    identity: IdentityView,
    link_id: Seq<char>,
    now_ms: i64,
)
    requires
        is_new(store, identity),
        with_account(
            store,
            after,
            user_id,
            handle,
            display_name,
            identity,
            link_id,
            now_ms,
        ),
    ensures
        identity_laws::linked_to(after, identity.issuer, identity.subject, user_id),
{
    let values = external_identities::insert_identity_op(
        link_id,
        identity,
        user_id,
        now_ms,
    ).values;
    reveal_strlit("external_identity_id");
    reveal_strlit("provider");
    reveal_strlit("issuer");
    reveal_strlit("subject");
    reveal_strlit("user_id");
    reveal_strlit("provider_display_name");
    reveal_strlit("provider_picture_url");
    reveal_strlit("created_at_ms");
    reveal_strlit("last_authenticated_at_ms");
    assert("external_identity_id"@.len() == 20);
    assert("provider"@.len() == 8);
    assert("issuer"@.len() == 6);
    assert("subject"@.len() == 7 && "subject"@[0] == 's');
    assert("user_id"@.len() == 7 && "user_id"@[0] == 'u');
    assert("provider_display_name"@.len() == 21);
    assert("provider_picture_url"@.len() == 20);
    assert("created_at_ms"@.len() == 13);
    assert("last_authenticated_at_ms"@.len() == 24);
    model::assigned_sets(Map::empty(), values, 2);
    model::assigned_sets(Map::empty(), values, 3);
    model::assigned_sets(Map::empty(), values, 4);
    let earlier = store.rows("external_identities"@);
    let rows = after.rows("external_identities"@);
    assert(identity_laws::links(
        rows[earlier.len() as int],
        identity.issuer,
        identity.subject,
    ));
    assert forall|i: int| 0 <= i < rows.len() && identity_laws::links(
        #[trigger] rows[i],
        identity.issuer,
        identity.subject,
    ) implies model::datum_in(rows[i], "user_id"@) == Datum::Text(user_id) by {
        if i < earlier.len() {
            assert(rows[i] == earlier[i]);
        }
    }
}

/// The request for a user's profile.
spec fn profile_op(user_id: Seq<char>) -> Op {
    Op::select("user_profiles"@).where_text("user_id"@, user_id)
}

/// The profile of a new account is read as one that the provider owns.
proof fn new_profile_is_read(
    rows: Seq<Record>,
    user_id: Seq<char>,
    display_name: Seq<char>,
    picture: Option<Seq<char>>,
    now_ms: i64,
    shown: Seq<Row>,
)
    requires
        forall|i: int|
            0 <= i < rows.len() ==> !account_laws::of_user(#[trigger] rows[i], user_id),
        model::all_shown(
            shown,
            model::found(
                rows.push(
                    model::assigned(
                        Map::empty(),
                        profiles::insert_profile_op(user_id, display_name, picture, now_ms).values,
                    ),
                ),
                profile_op(user_id).filters,
            ),
        ),
    ensures
        shown.len() > 0,
        profiles::profile_row(shown[0]) is Some,
{
    let values = profiles::insert_profile_op(user_id, display_name, picture, now_ms).values;
    let record = model::assigned(Map::empty(), values);
    let op = profile_op(user_id);
    reveal_strlit("user_id");
    reveal_strlit("display_name");
    reveal_strlit("display_name_source");
    reveal_strlit("avatar_source");
    reveal_strlit("provider_picture_url");
    reveal_strlit("provider_picture_checked_at_ms");
    reveal_strlit("updated_at_ms");
    assert("user_id"@.len() == 7);
    assert("display_name"@.len() == 12);
    assert("display_name_source"@.len() == 19);
    assert("avatar_source"@.len() == 13 && "avatar_source"@[0] == 'a');
    assert("provider_picture_url"@.len() == 20);
    assert("provider_picture_checked_at_ms"@.len() == 30);
    assert("updated_at_ms"@.len() == 13 && "updated_at_ms"@[0] == 'u');
    model::assigned_sets(Map::empty(), values, 0);
    model::assigned_sets(Map::empty(), values, 1);
    model::assigned_sets(Map::empty(), values, 2);
    model::assigned_sets(Map::empty(), values, 3);
    assert forall|i: int| 0 <= i < rows.len() implies !model::meets(
        #[trigger] rows[i],
        op.filters[0],
    ) by {}
    assert(model::meets_all(record, op.filters)) by {
        assert(model::meets(record, op.filters[0]));
    }
    crate::invitation_laws::only_the_new_row_is_found(rows, record, op.filters, 0);
    assert(model::shows(shown[0], record));
    model::shown_values(shown[0], record, "user_id"@);
    model::shown_values(shown[0], record, "display_name"@);
    model::shown_values(shown[0], record, "display_name_source"@);
    model::shown_values(shown[0], record, "avatar_source"@);
    profiles::source_names_round_trip(ProfileFieldSource::Google, AvatarSource::Google);
}

/// Refreshing a known identity.
spec fn refreshing(user_id: Seq<char>, identity: IdentityView, now: Timestamp) -> Workflow<
    (Seq<char>, bool),
    ExternalIdentityError,
> {
    |trace: Trace| external_identities::refresh_run(trace, user_id, identity, now)
}

/// A refresh of a readable profile under an acceptable name ends well and adds no row.
proof fn refresh_succeeds(
    user_id: Seq<char>,
    identity: IdentityView,
    now: Timestamp,
    replies: Seq<Reply>,
    from: int,
    store: Store,
    rows: Seq<Record>,
    display_name: Seq<char>,
    picture: Option<Seq<char>>,
    earlier_ms: i64,
)
    requires
        game::millis_at(now) is Some,
        profiles::normalized_display_name(identity.display_name) is Some,
        forall|i: int|
            0 <= i < rows.len() ==> !account_laws::of_user(#[trigger] rows[i], user_id),
        store.rows("user_profiles"@) == rows.push(
            model::assigned(
                Map::empty(),
                profiles::insert_profile_op(user_id, display_name, picture, earlier_ms).values,
            ),
        ),
        stages::underway(
            refreshing(user_id, identity, now),
            replies,
            from,
            store,
            stages::anything(),
        ),
    ensures
        refreshing(user_id, identity, now)(Trace { replies, at: from }).outcome == Outcome::<
            (Seq<char>, bool),
            ExternalIdentityError,
        >::Done((user_id, false)),
        ({
            let after = stages::stage_store(
                refreshing(user_id, identity, now),
                replies,
                from,
                store,
                replies.len() as int,
            );
            &&& after.rows("user_profiles"@).len() == store.rows("user_profiles"@).len()
            &&& after.rows("external_identities"@).len() == store.rows("external_identities"@).len()
            &&& forall|table: Seq<char>|
                table != "user_profiles"@ && table != "external_identities"@
                    ==> #[trigger] after.rows(table) == store.rows(table)
        }),
{
    let fits = stages::anything();
    let now_ms = game::millis_at(now)->0;
    let stage = refreshing(user_id, identity, now);
    let select = profile_op(user_id);
    let refresh = external_identities::refresh_identity_op(identity, now_ms);
    let end = |rows: Seq<Row>, trace: Trace|
        script::done::<(Seq<char>, bool), ExternalIdentityError>(trace, (user_id, false));
    let synced = |rows: Seq<Row>, trace: Trace| script::query(trace, refresh, end);
    let sync = |profile: ProfileView|
        profiles::synchronize_op(
            profile,
            user_id,
            profiles::normalized_display_name(identity.display_name)->0,
            identity.picture_url,
            now_ms,
        );
    let read = |rows: Seq<Row>, trace: Trace|
        if rows.len() == 0 {
            script::fail(trace, ExternalIdentityError::Profile(ProfileError::Malformed))
        } else {
            match profiles::profile_row(rows[0]) {
                None => script::fail(
                    trace,
                    ExternalIdentityError::Profile(ProfileError::Malformed),
                ),
                Some(profile) => script::query(trace, sync(profile), synced),
            }
        };
    assert forall|trace: Trace| #[trigger] stage(trace) == script::query(
        trace,
        select,
        read,
    ) by {}
    let shown = stages::asks_store(stage, select, read, replies, from, store, fits);
    assert(model::executed(store, select).1 == model::found(
        store.rows("user_profiles"@),
        select.filters,
    ));
    new_profile_is_read(rows, user_id, display_name, picture, earlier_ms, shown);
    let profile = profiles::profile_row(shown[0])->0;
    let second: Workflow<(Seq<char>, bool), ExternalIdentityError> = |trace: Trace|
        read(shown, trace);
    let r1 = stages::asks_store(second, sync(profile), synced, replies, from + 1, store, fits);
    let s2 = model::executed(store, sync(profile)).0;
    let third: Workflow<(Seq<char>, bool), ExternalIdentityError> = |trace: Trace|
        synced(r1, trace);
    let r2 = stages::asks_store(third, refresh, end, replies, from + 2, s2, fits);
    let s3 = model::executed(s2, refresh).0;
    let last: Workflow<(Seq<char>, bool), ExternalIdentityError> = |trace: Trace| end(r2, trace);
    let count = replies.len() as int;
    stages::nothing_more(last, replies, from + 3, s3, count);
    assert(stages::stage_store(stage, replies, from, store, count) == stages::stage_store(
        second,
        replies,
        from + 1,
        store,
        count,
    ));
    assert(stages::stage_store(second, replies, from + 1, store, count) == stages::stage_store(
        third,
        replies,
        from + 2,
        s2,
        count,
    ));
    assert(stages::stage_store(third, replies, from + 2, s2, count) == s3);
    account_tables_differ();
    assert forall|table: Seq<char>|
        table != "user_profiles"@ && table != "external_identities"@ implies #[trigger] s3.rows(
        table,
    ) == store.rows(table) by {
        assert(s2.rows(table) == store.rows(table));
    }
}

/// The account that a first login makes is the one that the next login finds: the first says that
/// it made the account, the next says that it did not. One user, one profile and one link were
/// added, under a handle that nobody had; the next login adds none, keeps the handle, and the
/// account has no password.
///
/// The identity of the user is drawn at random; it is taken to be new.
pub proof fn first_logins_are_remembered(
    identity: IdentityView,
    now: Timestamp,
    replies: Seq<Reply>,
    store: Store,
    resolved: (Seq<char>, bool),
    later: Timestamp,
    later_replies: Seq<Reply>,
)
    requires
        is_new(store, identity),
        model::served(identity_laws::resolving(identity, now), replies, store),
        model::ending(identity_laws::resolving(identity, now), replies) == Outcome::<
            (Seq<char>, bool),
            ExternalIdentityError,
        >::Done(resolved),
        unknown_in(store, "user_profiles"@, resolved.0),
        unknown_in(store, "password_credentials"@, resolved.0),
        game::millis_at(later) is Some,
        model::served(
            identity_laws::resolving(identity, later),
            later_replies,
            model::store_after(identity_laws::resolving(identity, now), replies, store),
        ),
        !(model::ending(identity_laws::resolving(identity, later), later_replies) is Wait),
    ensures
        resolved.1,
        model::ending(identity_laws::resolving(identity, later), later_replies) == Outcome::<
            (Seq<char>, bool),
            ExternalIdentityError,
        >::Done((resolved.0, false)),
        ({
            let after = model::store_after(
                identity_laws::resolving(identity, now),
                replies,
                store,
            );
            let again = model::store_after(
                identity_laws::resolving(identity, later),
                later_replies,
                after,
            );
            &&& exists|handle: Seq<char>, link_id: Seq<char>|
                !account_laws::name_taken(store, handle) && #[trigger] with_account(
                    store,
                    after,
                    resolved.0,
                    handle,
                    profiles::normalized_display_name(identity.display_name)->0,
                    identity,
                    link_id,
                    game::millis_at(now)->0,
                )
            &&& again.rows("users"@) == after.rows("users"@)
            &&& again.rows("user_profiles"@).len() == after.rows("user_profiles"@).len()
            &&& again.rows("external_identities"@).len() == after.rows("external_identities"@).len()
            &&& unknown_in(again, "password_credentials"@, resolved.0)
        }),
{
    let fits = stages::anything();
    let (handle, link_id) = first_login_adds_an_account(identity, now, replies, store, resolved);
    let workflow = identity_laws::resolving(identity, later);
    let after = model::store_after(identity_laws::resolving(identity, now), replies, store);
    let display_name = profiles::normalized_display_name(identity.display_name)->0;
    let now_ms = game::millis_at(now)->0;
    account_is_linked(
        store,
        after,
        resolved.0,
        handle,
        display_name,
        identity,
        link_id,
        now_ms,
    );
    stages::whole_is_underway(workflow, later_replies, after, fits);
    stages::whole_leaves(workflow, later_replies, after);
    let lookup = identity_laws::identity_op(identity.issuer, identity.subject);
    let looked = |rows: Seq<Row>, trace: Trace|
        if rows.len() == 0 {
            external_identities::introduce_run(trace, identity, later)
        } else {
            match rows[0].text_at("user_id"@) {
                Some(user_id) => external_identities::refresh_run(trace, user_id, identity, later),
                None => script::fail(trace, ExternalIdentityError::Malformed),
            }
        };
    assert forall|trace: Trace| #[trigger] workflow(trace) == script::query(
        trace,
        lookup,
        looked,
    ) by {}
    let rows = stages::asks_store(workflow, lookup, looked, later_replies, 0, after, fits);
    identity_laws::link_is_found(after, identity.issuer, identity.subject, resolved.0, rows);
    let second: Workflow<(Seq<char>, bool), ExternalIdentityError> = |trace: Trace|
        looked(rows, trace);
    let next = refreshing(resolved.0, identity, later);
    assert forall|trace: Trace| #[trigger] second(trace) == next(trace) by {}
    stages::same_underway(second, next, later_replies, 1, after, fits);
    assert(second =~= next);
    refresh_succeeds(
        resolved.0,
        identity,
        later,
        later_replies,
        1,
        after,
        store.rows("user_profiles"@),
        display_name,
        identity.picture_url,
        now_ms,
    );
    let count = later_replies.len() as int;
    assert(stages::stage_store(workflow, later_replies, 0, after, count) == stages::stage_store(
        second,
        later_replies,
        1,
        after,
        count,
    ));
    account_tables_differ();
    reveal_strlit("password_credentials");
    reveal_strlit("users");
    reveal_strlit("user_profiles");
    reveal_strlit("external_identities");
    assert("password_credentials"@.len() == 20);
    assert("users"@.len() == 5);
    assert("user_profiles"@.len() == 13);
    assert("external_identities"@.len() == 19);
    let again = model::store_after(workflow, later_replies, after);
    assert(again.rows("password_credentials"@) == store.rows("password_credentials"@));
}

} // verus!
