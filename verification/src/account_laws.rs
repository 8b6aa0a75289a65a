//! What accounts promise: names are taken once, passwords retire with a migration, and avatars are
//! private.
use crate::accounts::{self, AccountError};
use crate::avatars::ImageView;
use crate::exactly_once;
use crate::external_identities::{self, ExternalIdentityError, IdentityView};
use crate::game::{self, Span, Timestamp};
use crate::google_accounts::{self, GoogleAccountWorkflowError};
use crate::model::{self, Record, Store, Workflow};
use crate::profiles::{self, AvatarSource, ProfileError};
use crate::read_back;
use crate::script::{self, Ask, Outcome, Reply, Run, Trace};
use crate::stages;
use crate::steady;
use crate::store::{Datum, Op, Relation, Row};
use crate::transactions;
use vstd::prelude::*;

verus! {

/// Whether a row is of a user.
pub open spec fn of_user(record: Record, user_id: Seq<char>) -> bool {
    model::datum_in(record, "user_id"@) == Datum::Text(user_id)
}

/// A user who has moved to an external identity has no password, and every session from before is
/// revoked at that moment.
pub proof fn migrations_retire_the_password(
    user_id: Seq<char>,
    identity: IdentityView,
    now: Timestamp,
    lifetime: Span,
    replies: Seq<Reply>,
    store: Store,
)
    requires
        model::served(
            transactions::transacting(
                transactions::migrating(user_id, identity, now, lifetime),
            ),
            replies,
            store,
        ),
        model::ending(
            transactions::transacting(
                transactions::migrating(user_id, identity, now, lifetime),
            ),
            replies,
        ) is Done,
    ensures
        ({
            let after = model::store_after(
                transactions::transacting(
                    transactions::migrating(user_id, identity, now, lifetime),
                ),
                replies,
                store,
            );
            &&& game::millis_at(now) is Some
            &&& forall|i: int|
                0 <= i < after.rows("password_credentials"@).len() ==> !of_user(
                    #[trigger] after.rows("password_credentials"@)[i],
                    user_id,
                )
            &&& forall|i: int|
                0 <= i < after.rows("auth_sessions"@).len() && of_user(
                    #[trigger] after.rows("auth_sessions"@)[i],
                    user_id,
                ) ==> model::datum_in(after.rows("auth_sessions"@)[i], "revoked_at_ms"@)
                    == Datum::Integer(game::millis_at(now)->0 as int)
        }),
{
    let body = transactions::migrating(user_id, identity, now, lifetime);
    let workflow = transactions::transacting(body);
    let to = replies.len() as int;
    let after = model::store_after(workflow, replies, store);
    let value = model::ending(workflow, replies)->Done_0;
    assert forall|cut: int| 0 <= cut <= replies.len() implies steady::steady(
        workflow(Trace { replies, at: 0 }),
        #[trigger] stages::stage_run(workflow, replies, 0, cut),
        replies,
        0,
        cut,
    ) by {
        steady::migrating_is_steady(replies, 1, cut, user_id, identity, now, lifetime);
        let end = body(Trace { replies, at: 1 }).trace.at;
        if 0 < cut {
            assert(replies.take(cut)[0] == replies[0]);
        }
        if 0 <= end < cut {
            assert(replies.take(cut)[end] == replies[end]);
        }
    }
    stages::whole_is_played(workflow, replies, store, value);
    assert(stages::stage_run(workflow, replies, 0, 0).outcome is Wait);
    assert forall|cut: int| 0 <= cut <= replies.len() implies steady::steady(
        body(Trace { replies, at: 1 }),
        #[trigger] stages::stage_run(body, replies, 1, cut),
        replies,
        1,
        cut,
    ) by {
        steady::migrating_is_steady(replies, 1, cut, user_id, identity, now, lifetime);
    }
    let (end, moved) = stages::committed(body, replies, 0, store, value, to, after);
    let begun = model::executed(store, Op::begin()).0;
    password_is_retired(user_id, identity, now, lifetime, replies, 1, begun, value, end, moved);
    assert(after.rows("password_credentials"@) == moved.rows("password_credentials"@));
    assert(after.rows("auth_sessions"@) == moved.rows("auth_sessions"@));
}

proof fn password_is_retired(
    user_id: Seq<char>,
    identity: IdentityView,
    now: Timestamp,
    lifetime: Span,
    replies: Seq<Reply>,
    from: int,
    store: Store,
    value: Seq<char>,
    to: int,
    after: Store,
)
    requires
        stages::played(
            transactions::migrating(user_id, identity, now, lifetime),
            replies,
            from,
            store,
            value,
            to,
            after,
        ),
    ensures
        game::millis_at(now) is Some,
        forall|i: int|
            0 <= i < after.rows("password_credentials"@).len() ==> !of_user(
                #[trigger] after.rows("password_credentials"@)[i],
                user_id,
            ),
        forall|i: int|
            0 <= i < after.rows("auth_sessions"@).len() && of_user(
                #[trigger] after.rows("auth_sessions"@)[i],
                user_id,
            ) ==> model::datum_in(after.rows("auth_sessions"@)[i], "revoked_at_ms"@)
                == Datum::Integer(game::millis_at(now)->0 as int),
{
    let stage = transactions::migrating(user_id, identity, now, lifetime);
    let count = replies.len() as int;
    assert(replies.take(count) =~= replies);
    let wrap = |error: ExternalIdentityError| GoogleAccountWorkflowError::Identity(error);
    let first: Workflow<(), GoogleAccountWorkflowError> = |trace: Trace|
        script::lift(external_identities::link_run(trace, user_id, identity, now), wrap);
    let delete = Op::delete("password_credentials"@).where_text("user_id"@, user_id);
    let issue = |trace: Trace|
        google_accounts::session_run(
            trace,
            user_id,
            now,
            lifetime,
            |token: Seq<char>, trace: Trace| script::done(trace, token),
        );
    let onward = |deleted: Seq<Row>, trace: Trace|
        if deleted.len() != 1 {
            script::fail::<Seq<char>, GoogleAccountWorkflowError>(
                trace,
                GoogleAccountWorkflowError::MissingPasswordCredential,
            )
        } else {
            match game::millis_at(now) {
                None => script::fail(trace, GoogleAccountWorkflowError::Timestamp),
                Some(now_ms) => script::perform(
                    trace,
                    google_accounts::revoke_sessions_op(user_id, now_ms),
                    issue,
                ),
            }
        };
    let rest = |linked: (), trace: Trace| script::query(trace, delete, onward);
    assert forall|trace: Trace| #[trigger] stage(trace) == script::chain(first(trace), rest) by {}
    assert forall|cut: int| 0 <= cut <= replies.len() implies steady::steady(
        first(Trace { replies, at: from }),
        #[trigger] stages::stage_run(first, replies, from, cut),
        replies,
        from,
        cut,
    ) by {
        steady::linking_is_steady(replies, from, cut, user_id, identity, now);
    }
    steady::linking_is_steady(replies, from, count, user_id, identity, now);
    let start = first(Trace { replies, at: from }).trace.at;
    assert(stage(Trace { replies, at: from }).trace.at == start + 3);
    let (linked, mid, between) = stages::chained(
        stage,
        first,
        rest,
        replies,
        from,
        store,
        value,
        to,
        after,
    );
    let second: Workflow<Seq<char>, GoogleAccountWorkflowError> = |trace: Trace|
        rest(linked, trace);
    let gone = stages::queried(second, delete, onward, replies, mid, between, value, to, after);
    let cleared = model::executed(between, delete).0;
    let third: Workflow<Seq<char>, GoogleAccountWorkflowError> = |trace: Trace|
        onward(gone, trace);
    assert(third(Trace { replies, at: mid + 1 }).outcome is Done);
    let now_ms = game::millis_at(now)->0;
    let revoke = google_accounts::revoke_sessions_op(user_id, now_ms);
    let tail = |rows: Seq<Row>, trace: Trace| issue(trace);
    let shown = stages::queried(third, revoke, tail, replies, mid + 1, cleared, value, to, after);
    let revoked = model::executed(cleared, revoke).0;
    let last: Workflow<Seq<char>, GoogleAccountWorkflowError> = |trace: Trace|
        tail(shown, trace);
    assert(stages::stage_store(last, replies, mid + 2, revoked, to) == revoked) by {
        assert(to == mid + 3);
        let cut = stages::stage_run(last, replies, mid + 2, mid + 2);
        assert(cut.outcome == Outcome::<Seq<char>, GoogleAccountWorkflowError>::Wait(
            Ask::IssueSession(user_id, now, lifetime),
        ));
        assert(stages::stage_store(last, replies, mid + 2, revoked, mid + 2) == revoked);
    }
    reveal_strlit("password_credentials");
    reveal_strlit("auth_sessions");
    reveal_strlit("user_id");
    reveal_strlit("revoked_at_ms");
    assert("password_credentials"@.len() == 20);
    assert("auth_sessions"@.len() == 13);
    assert("user_id"@.len() == 7);
    assert("revoked_at_ms"@.len() == 13);
    let credentials = between.rows("password_credentials"@);
    model::left_rows(credentials, delete.filters);
    assert(after.rows("password_credentials"@) == model::left(credentials, delete.filters));
    assert forall|i: int| 0 <= i < after.rows("password_credentials"@).len() implies !of_user(
        #[trigger] after.rows("password_credentials"@)[i],
        user_id,
    ) by {
        let record = after.rows("password_credentials"@)[i];
        if of_user(record, user_id) {
            assert(model::meets(record, delete.filters[0]));
            assert(model::meets_all(record, delete.filters));
        }
    }
    let sessions = cleared.rows("auth_sessions"@);
    assert forall|i: int| 0 <= i < after.rows("auth_sessions"@).len() && of_user(
        #[trigger] after.rows("auth_sessions"@)[i],
        user_id,
    ) implies model::datum_in(after.rows("auth_sessions"@)[i], "revoked_at_ms"@)
        == Datum::Integer(now_ms as int) by {
        let record = sessions[i];
        if model::meets_all(record, revoke.filters) {
            model::assigned_sets(record, revoke.values, 0);
        } else {
            assert(of_user(record, user_id));
            assert(model::meets(record, revoke.filters[0]));
            assert(model::meets_all(record, revoke.filters));
        }
    }
}

/// Every row that meets the filters is found.
proof fn meeting_rows_are_found(
    rows: Seq<Record>,
    filters: Seq<(Seq<char>, Relation, Datum)>,
    at: int,
)
    requires
        0 <= at < rows.len(),
        model::meets_all(rows[at], filters),
    ensures
        model::found(rows, filters).contains(rows[at]),
    decreases rows.len(),
{
    let less = rows.drop_last();
    let hits = model::found(rows, filters);
    if at < less.len() {
        meeting_rows_are_found(less, filters, at);
        let place = choose|place: int|
            0 <= place < model::found(less, filters).len() && model::found(less, filters)[place]
                == rows[at];
        assert(hits[place] == rows[at]);
    } else {
        assert(hits[hits.len() - 1] == rows[at]);
    }
}

/// Whether a store seats a user in a game.
pub open spec fn seated(store: Store, user_id: Seq<char>, game_id: Seq<char>) -> bool {
    exactly_once::holds_both(
        store.rows("game_players"@),
        "user_id"@,
        user_id,
        "game_id"@,
        game_id,
    )
}

/// Whether a store shows a game as going on.
pub open spec fn going_on(store: Store, game_id: Seq<char>) -> bool {
    exactly_once::holds_both(
        store.rows("game_summaries"@),
        "game_id"@,
        game_id,
        "status"@,
        "ACTIVE"@,
    )
}

/// Whether two users sit in the same game and it is going on.
pub open spec fn opponents(store: Store, first: Seq<char>, second: Seq<char>) -> bool {
    exists|game_id: Seq<char>|
        #[trigger] seated(store, first, game_id) && seated(store, second, game_id) && going_on(
            store,
            game_id,
        )
}

/// Whether a row is a pending challenge of one user to another.
pub open spec fn challenges(record: Record, challenger: Seq<char>, challenged: Seq<char>) -> bool {
    &&& model::datum_in(record, "challenger_user_id"@) == Datum::Text(challenger)
    &&& model::datum_in(record, "challenged_user_id"@) == Datum::Text(challenged)
    &&& model::datum_in(record, "status"@) == Datum::Text("PENDING"@)
}

/// Whether a challenge of one user to another is pending.
pub open spec fn is_challenging(
    store: Store,
    challenger: Seq<char>,
    challenged: Seq<char>,
) -> bool {
    exists|i: int|
        0 <= i < store.rows("challenges"@).len() && challenges(
            #[trigger] store.rows("challenges"@)[i],
            challenger,
            challenged,
        )
}

/// The memberships that a store shows name the games in which it seats the user.
proof fn memberships_name_the_games(
    store: Store,
    user_id: Seq<char>,
    rows: Seq<Row>,
    game_id: Seq<char>,
)
    requires
        model::all_shown(rows, model::executed(store, profiles::memberships_op(user_id)).1),
    ensures
        seated(store, user_id, game_id) <==> exists|i: int|
            0 <= i < rows.len() && (#[trigger] rows[i]).text_at("game_id"@) == Some(game_id),
{
    let op = profiles::memberships_op(user_id);
    let table = store.rows("game_players"@);
    let hits = model::found(table, op.filters);
    model::found_rows(table, op.filters);
    assert(model::executed(store, op).1 == hits);
    if seated(store, user_id, game_id) {
        let at = choose|at: int|
            0 <= at < table.len() && model::datum_in(#[trigger] table[at], "user_id"@)
                == Datum::Text(user_id) && model::datum_in(table[at], "game_id"@) == Datum::Text(
                game_id,
            );
        assert(model::meets_all(table[at], op.filters)) by {
            assert(model::meets(table[at], op.filters[0]));
        }
        meeting_rows_are_found(table, op.filters, at);
        let place = choose|place: int| 0 <= place < hits.len() && hits[place] == table[at];
        assert(model::shows(rows[place], hits[place]));
        model::shown_values(rows[place], hits[place], "game_id"@);
        assert(rows[place].text_at("game_id"@) == Some(game_id));
    }
    if exists|i: int|
        0 <= i < rows.len() && (#[trigger] rows[i]).text_at("game_id"@) == Some(game_id) {
        let i = choose|i: int|
            0 <= i < rows.len() && (#[trigger] rows[i]).text_at("game_id"@) == Some(game_id);
        assert(model::shows(rows[i], hits[i]));
        model::shown_values(rows[i], hits[i], "game_id"@);
        assert(model::meets(hits[i], op.filters[0]));
        let at = choose|at: int| 0 <= at < table.len() && table[at] == hits[i];
        assert(model::datum_in(table[at], "user_id"@) == Datum::Text(user_id));
    }
}

/// A store shows a game as active exactly where it is going on.
proof fn active_games_are_shown(store: Store, game_id: Seq<char>, rows: Seq<Row>)
    requires
        model::all_shown(rows, model::executed(store, profiles::active_game_op(game_id)).1),
    ensures
        rows.len() > 0 <==> going_on(store, game_id),
{
    let op = profiles::active_game_op(game_id);
    let table = store.rows("game_summaries"@);
    model::found_rows(table, op.filters);
    assert(model::executed(store, op).1 == model::found(table, op.filters));
    assert(op.filters.len() == 2);
    if going_on(store, game_id) {
        let i = choose|i: int|
            0 <= i < table.len() && model::datum_in(#[trigger] table[i], "game_id"@)
                == Datum::Text(game_id) && model::datum_in(table[i], "status"@) == Datum::Text(
                "ACTIVE"@,
            );
        assert(model::meets(table[i], op.filters[0]));
        assert(model::meets(table[i], op.filters[1]));
        assert(model::meets_all(table[i], op.filters));
    }
    if rows.len() > 0 {
        let i = choose|i: int|
            0 <= i < table.len() && model::meets_all(#[trigger] table[i], op.filters);
        assert(model::meets(table[i], op.filters[0]));
        assert(model::meets(table[i], op.filters[1]));
    }
}

/// Whether a game that both lists name, from `index` of the first on, is going on.
spec fn plays_from(store: Store, own: Seq<Row>, theirs: Seq<Row>, index: int) -> bool {
    exists|i: int|
        index <= i < own.len() && ((#[trigger] own[i]).text_at("game_id"@) matches Some(game)
            && profiles::names_game(theirs, game) && going_on(store, game))
}

/// The games that two users' memberships name tell whether they are opponents.
proof fn shared_games_are_shown(
    store: Store,
    first: Seq<char>,
    second: Seq<char>,
    own: Seq<Row>,
    theirs: Seq<Row>,
)
    requires
        model::all_shown(own, model::executed(store, profiles::memberships_op(first)).1),
        model::all_shown(theirs, model::executed(store, profiles::memberships_op(second)).1),
    ensures
        plays_from(store, own, theirs, 0) <==> opponents(store, first, second),
{
    if plays_from(store, own, theirs, 0) {
        let i = choose|i: int|
            0 <= i < own.len() && ((#[trigger] own[i]).text_at("game_id"@) matches Some(game)
                && profiles::names_game(theirs, game) && going_on(store, game));
        let game_id = own[i].text_at("game_id"@)->0;
        memberships_name_the_games(store, first, own, game_id);
        memberships_name_the_games(store, second, theirs, game_id);
        assert(own[i].text_at("game_id"@) == Some(game_id));
        assert(seated(store, first, game_id) && seated(store, second, game_id));
    }
    if opponents(store, first, second) {
        let game_id = choose|game_id: Seq<char>|
            #[trigger] seated(store, first, game_id) && seated(store, second, game_id) && going_on(
                store,
                game_id,
            );
        memberships_name_the_games(store, first, own, game_id);
        memberships_name_the_games(store, second, theirs, game_id);
        let i = choose|i: int|
            0 <= i < own.len() && (#[trigger] own[i]).text_at("game_id"@) == Some(game_id);
        assert(own[i].text_at("game_id"@) == Some(game_id) && profiles::names_game(theirs, game_id));
    }
}

/// Looking through two lists of memberships.
spec fn comparing(
    own: Seq<Row>,
    theirs: Seq<Row>,
    index: int,
    viewer: Seq<char>,
    profile: Seq<char>,
) -> Workflow<bool, ProfileError> {
    |trace: Trace| profiles::playing_run(trace, own, theirs, index, viewer, profile)
}

proof fn comparing_is_in_order(
    own: Seq<Row>,
    theirs: Seq<Row>,
    index: int,
    viewer: Seq<char>,
    profile: Seq<char>,
    replies: Seq<Reply>,
    from: int,
)
    requires
        0 <= from,
        0 <= index,
    ensures
        stages::in_order(comparing(own, theirs, index, viewer, profile), replies, from),
    decreases own.len() - index,
{
    let workflow = comparing(own, theirs, index, viewer, profile);
    if index < own.len() {
        comparing_is_in_order(own, theirs, index + 1, viewer, profile, replies, from);
        comparing_is_in_order(own, theirs, index + 1, viewer, profile, replies, from + 1);
    }
    let next = comparing(own, theirs, index + 1, viewer, profile);
    assert forall|cut: int| 0 <= cut <= replies.len() implies steady::steady(
        workflow(Trace { replies, at: from }),
        #[trigger] stages::stage_run(workflow, replies, from, cut),
        replies,
        from,
        cut,
    ) by {
        assert forall|k: int| from <= k < cut implies replies.take(cut)[k] == #[trigger] replies[k] by {}
        if index < own.len() {
            assert(stages::stage_run(next, replies, from, cut) == profiles::playing_run(
                Trace { replies: replies.take(cut), at: from },
                own,
                theirs,
                index + 1,
                viewer,
                profile,
            ));
            assert(stages::stage_run(next, replies, from + 1, cut) == profiles::playing_run(
                Trace { replies: replies.take(cut), at: from + 1 },
                own,
                theirs,
                index + 1,
                viewer,
                profile,
            ));
        }
    }
}

/// A shared game that is going on decides, and otherwise the pending challenges.
proof fn games_decide(
    own: Seq<Row>,
    theirs: Seq<Row>,
    index: int,
    viewer: Seq<char>,
    profile: Seq<char>,
    replies: Seq<Reply>,
    from: int,
    store: Store,
    value: bool,
    to: int,
    after: Store,
)
    requires
        0 <= index,
        stages::played(
            comparing(own, theirs, index, viewer, profile),
            replies,
            from,
            store,
            value,
            to,
            after,
        ),
    ensures
        value == (plays_from(store, own, theirs, index) || is_challenging(store, viewer, profile)
            || is_challenging(store, profile, viewer)),
        after == store,
    decreases own.len() - index,
{
    let stage = comparing(own, theirs, index, viewer, profile);
    let next = comparing(own, theirs, index + 1, viewer, profile);
    if index >= own.len() {
        let pending = |trace: Trace| profiles::pending_either_way_run(trace, viewer, profile);
        stages::same_stage(stage, pending, replies, from, store, value, to, after);
        challenges_decide(viewer, profile, replies, from, store, value, to, after);
    } else {
        let named = own[index].text_at("game_id"@);
        if named is Some && profiles::names_game(theirs, named->0) {
            let game = named->0;
            let op = profiles::active_game_op(game);
            let rest = |active: Seq<Row>, trace: Trace|
                if active.len() > 0 {
                    script::done::<bool, ProfileError>(trace, true)
                } else {
                    profiles::playing_run(trace, own, theirs, index + 1, viewer, profile)
                };
            assert forall|trace: Trace| #[trigger] stage(trace) == script::query(
                trace,
                op,
                rest,
            ) by {}
            comparing_is_in_order(own, theirs, index + 1, viewer, profile, replies, from + 1);
            let count = replies.len() as int;
            assert(replies.take(count) =~= replies);
            assert(stages::stage_run(next, replies, from + 1, count) == profiles::playing_run(
                Trace { replies, at: from + 1 },
                own,
                theirs,
                index + 1,
                viewer,
                profile,
            ));
            let active = stages::queried(stage, op, rest, replies, from, store, value, to, after);
            active_games_are_shown(store, game, active);
            let second: Workflow<bool, ProfileError> = |trace: Trace| rest(active, trace);
            if active.len() > 0 {
                stages::ended(second, replies, from + 1, store, value, to, after, true);
                assert(own[index].text_at("game_id"@) == Some(game));
            } else {
                stages::same_stage(second, next, replies, from + 1, store, value, to, after);
                games_decide(
                    own,
                    theirs,
                    index + 1,
                    viewer,
                    profile,
                    replies,
                    from + 1,
                    store,
                    value,
                    to,
                    after,
                );
            }
        } else {
            assert forall|trace: Trace| #[trigger] stage(trace) == next(trace) by {}
            stages::same_stage(stage, next, replies, from, store, value, to, after);
            games_decide(
                own,
                theirs,
                index + 1,
                viewer,
                profile,
                replies,
                from,
                store,
                value,
                to,
                after,
            );
        }
    }
}

/// A store shows a pending challenge exactly where there is one.
proof fn pending_challenges_are_shown(
    store: Store,
    challenger: Seq<char>,
    challenged: Seq<char>,
    rows: Seq<Row>,
)
    requires
        model::all_shown(
            rows,
            model::executed(store, profiles::pending_between_op(challenger, challenged)).1,
        ),
    ensures
        rows.len() > 0 <==> is_challenging(store, challenger, challenged),
{
    let op = profiles::pending_between_op(challenger, challenged);
    let table = store.rows("challenges"@);
    model::found_rows(table, op.filters);
    assert(model::executed(store, op).1 == model::found(table, op.filters));
    assert(op.filters.len() == 3);
    assert forall|record: Record| #[trigger] challenges(record, challenger, challenged)
        <==> model::meets_all(record, op.filters) by {
        if model::meets_all(record, op.filters) {
            assert(model::meets(record, op.filters[0]));
            assert(model::meets(record, op.filters[1]));
            assert(model::meets(record, op.filters[2]));
        }
    }
    if is_challenging(store, challenger, challenged) {
        let i = choose|i: int|
            0 <= i < table.len() && challenges(#[trigger] table[i], challenger, challenged);
        assert(model::meets_all(table[i], op.filters));
    }
    if rows.len() > 0 {
        let i = choose|i: int|
            0 <= i < table.len() && model::meets_all(#[trigger] table[i], op.filters);
        assert(challenges(table[i], challenger, challenged));
    }
}

/// Looking up whether an avatar may be seen.
pub open spec fn viewing(viewer: Seq<char>, profile: Seq<char>) -> Workflow<bool, ProfileError> {
    |trace: Trace| profiles::can_view_run(trace, viewer, profile)
}

proof fn viewing_is_in_order(viewer: Seq<char>, profile: Seq<char>, replies: Seq<Reply>)
    ensures
        stages::in_order(viewing(viewer, profile), replies, 0),
{
    let workflow = viewing(viewer, profile);
    assert forall|cut: int| 0 <= cut <= replies.len() implies steady::steady(
        workflow(Trace { replies, at: 0 }),
        #[trigger] stages::stage_run(workflow, replies, 0, cut),
        replies,
        0,
        cut,
    ) by {
        assert forall|k: int| 0 <= k < cut implies replies.take(cut)[k] == #[trigger] replies[k] by {}
        if replies.len() > 1 && replies[0] is Rows && replies[1] is Rows {
            let own = replies[0]->Rows_0@;
            let theirs = replies[1]->Rows_0@;
            let stage = comparing(own, theirs, 0, viewer, profile);
            comparing_is_in_order(own, theirs, 0, viewer, profile, replies, 2);
            assert(stages::stage_run(stage, replies, 2, cut) == profiles::playing_run(
                Trace { replies: replies.take(cut), at: 2 },
                own,
                theirs,
                0,
                viewer,
                profile,
            ));
        }
    }
}

/// An avatar is shown to its owner, to the owner's current opponents, and to those with whom the
/// owner has a pending challenge, and to no one else; looking changes nothing.
pub proof fn avatars_are_shown_to_those_concerned(
    viewer: Seq<char>,
    profile: Seq<char>,
    replies: Seq<Reply>,
    store: Store,
)
    requires
        model::served(viewing(viewer, profile), replies, store),
        model::ending(viewing(viewer, profile), replies) is Done,
    ensures
        model::ending(viewing(viewer, profile), replies)->Done_0 == (viewer == profile
            || opponents(store, viewer, profile) || is_challenging(store, viewer, profile)
            || is_challenging(store, profile, viewer)),
        model::store_after(viewing(viewer, profile), replies, store) == store,
{
    let workflow = viewing(viewer, profile);
    let value = model::ending(workflow, replies)->Done_0;
    let to = replies.len() as int;
    let after = model::store_after(workflow, replies, store);
    viewing_is_in_order(viewer, profile, replies);
    stages::whole_is_played(workflow, replies, store, value);
    if viewer == profile {
        stages::ended(workflow, replies, 0, store, value, to, after, true);
    } else {
        let ask = profiles::memberships_op(viewer);
        let asking = profiles::memberships_op(profile);
        let pending = |trace: Trace| profiles::pending_either_way_run(trace, viewer, profile);
        let compared = |own: Seq<Row>|
            |theirs: Seq<Row>, trace: Trace|
                profiles::playing_run(trace, own, theirs, 0, viewer, profile);
        let rest = |own: Seq<Row>, trace: Trace|
            if profiles::names_a_game(own) {
                script::query(trace, asking, compared(own))
            } else {
                pending(trace)
            };
        assert forall|trace: Trace| #[trigger] workflow(trace) == script::query(
            trace,
            ask,
            rest,
        ) by {}
        let own = stages::queried(workflow, ask, rest, replies, 0, store, value, to, after);
        let second: Workflow<bool, ProfileError> = |trace: Trace| rest(own, trace);
        if profiles::names_a_game(own) {
            let theirs = stages::queried(
                second,
                asking,
                compared(own),
                replies,
                1,
                store,
                value,
                to,
                after,
            );
            shared_games_are_shown(store, viewer, profile, own, theirs);
            let third: Workflow<bool, ProfileError> = |trace: Trace| compared(own)(theirs, trace);
            let next = comparing(own, theirs, 0, viewer, profile);
            stages::same_stage(third, next, replies, 2, store, value, to, after);
            games_decide(own, theirs, 0, viewer, profile, replies, 2, store, value, to, after);
        } else {
            if opponents(store, viewer, profile) {
                let game_id = choose|game_id: Seq<char>|
                    #[trigger] seated(store, viewer, game_id) && seated(store, profile, game_id)
                        && going_on(store, game_id);
                memberships_name_the_games(store, viewer, own, game_id);
            }
            stages::same_stage(second, pending, replies, 1, store, value, to, after);
            challenges_decide(viewer, profile, replies, 1, store, value, to, after);
        }
    }
}

/// The pending challenges decide where nothing else has.
proof fn challenges_decide(
    viewer: Seq<char>,
    profile: Seq<char>,
    replies: Seq<Reply>,
    from: int,
    store: Store,
    value: bool,
    to: int,
    after: Store,
)
    requires
        stages::played(
            |trace: Trace| profiles::pending_either_way_run(trace, viewer, profile),
            replies,
            from,
            store,
            value,
            to,
            after,
        ),
    ensures
        value == (is_challenging(store, viewer, profile) || is_challenging(store, profile, viewer)),
        after == store,
{
    let stage: Workflow<bool, ProfileError> = |trace: Trace|
        profiles::pending_either_way_run(trace, viewer, profile);
    let outgoing_op = profiles::pending_between_op(viewer, profile);
    let incoming_op = profiles::pending_between_op(profile, viewer);
    let end = |incoming: Seq<Row>, trace: Trace|
        script::done::<bool, ProfileError>(trace, incoming.len() > 0);
    let rest = |outgoing: Seq<Row>, trace: Trace|
        if outgoing.len() > 0 {
            script::done::<bool, ProfileError>(trace, true)
        } else {
            script::query(trace, incoming_op, end)
        };
    let outgoing = stages::queried(
        stage,
        outgoing_op,
        rest,
        replies,
        from,
        store,
        value,
        to,
        after,
    );
    pending_challenges_are_shown(store, viewer, profile, outgoing);
    let second: Workflow<bool, ProfileError> = |trace: Trace| rest(outgoing, trace);
    if outgoing.len() > 0 {
        stages::ended(second, replies, from + 1, store, value, to, after, true);
    } else {
        let incoming = stages::queried(
            second,
            incoming_op,
            end,
            replies,
            from + 1,
            store,
            value,
            to,
            after,
        );
        pending_challenges_are_shown(store, profile, viewer, incoming);
        let third: Workflow<bool, ProfileError> = |trace: Trace| end(incoming, trace);
        stages::ended(third, replies, from + 2, store, value, to, after, incoming.len() > 0);
    }
}

/// Whether a store has a user of a normalized name.
pub open spec fn name_taken(store: Store, name: Seq<char>) -> bool {
    exists|i: int|
        0 <= i < store.rows("users"@).len() && model::datum_in(
            #[trigger] store.rows("users"@)[i],
            "username_normalized"@,
        ) == Datum::Text(name)
}

pub open spec fn by_name_op(name: Seq<char>) -> Op {
    Op::select("users"@).where_text("username_normalized"@, name)
}

/// A store shows a user of a name exactly where the name is taken.
proof fn taken_names_are_found(store: Store, name: Seq<char>)
    ensures
        model::executed(store, by_name_op(name)).1.len() > 0 <==> name_taken(store, name),
{
    let op = by_name_op(name);
    let table = store.rows("users"@);
    model::found_rows(table, op.filters);
    assert(model::executed(store, op).1 == model::found(table, op.filters));
    if name_taken(store, name) {
        let i = choose|i: int|
            0 <= i < table.len() && model::datum_in(#[trigger] table[i], "username_normalized"@)
                == Datum::Text(name);
        assert(model::meets(table[i], op.filters[0]));
        assert(model::meets_all(table[i], op.filters));
    }
    if model::found(table, op.filters).len() > 0 {
        let i = choose|i: int|
            0 <= i < table.len() && model::meets_all(#[trigger] table[i], op.filters);
        assert(model::meets(table[i], op.filters[0]));
    }
}

/// A name that is taken is not registered again, however it is written, and nothing is written.
pub proof fn taken_names_are_refused(
    username: Seq<char>,
    password: Seq<char>,
    now: Timestamp,
    replies: Seq<Reply>,
    store: Store,
)
    requires
        accounts::normalized_username(username) is Some,
        name_taken(store, accounts::normalized_username(username)->0),
        model::served(read_back::registering(username, password, now), replies, store),
        replies.len() > 0,
    ensures
        model::ending(read_back::registering(username, password, now), replies) == Outcome::<
            Seq<char>,
            AccountError,
        >::Fail(AccountError::UsernameTaken),
        model::store_after(read_back::registering(username, password, now), replies, store)
            == store,
{
    let workflow = read_back::registering(username, password, now);
    let name = accounts::normalized_username(username)->0;
    taken_names_are_found(store, name);
    assert(model::served_at(workflow, replies, store, 0));
    assert(model::asked(workflow, replies, 0) == Some(Ask::Store(by_name_op(name))));
    assert(replies[0] is Rows && replies[0]->Rows_0@.len() > 0);
    if replies.len() > 1 {
        assert(model::served_at(workflow, replies, store, 1));
        assert(replies.take(1)[0] == replies[0]);
    }
    assert(model::store_at(workflow, replies, store, 1) == store);
}

/// A registration takes a name that was free.
pub proof fn registering_takes_a_free_name(
    username: Seq<char>,
    password: Seq<char>,
    now: Timestamp,
    replies: Seq<Reply>,
    store: Store,
)
    requires
        model::served(read_back::registering(username, password, now), replies, store),
        model::ending(read_back::registering(username, password, now), replies) is Done,
    ensures
        ({
            let name = accounts::normalized_username(username);
            let after = model::store_after(
                read_back::registering(username, password, now),
                replies,
                store,
            );
            &&& name is Some
            &&& !name_taken(store, name->0)
            &&& name_taken(after, name->0)
        }),
{
    let workflow = read_back::registering(username, password, now);
    let user_id = model::ending(workflow, replies)->Done_0;
    read_back::account_is_stored(username, password, now, replies, store, user_id);
    let name = accounts::normalized_username(username)->0;
    taken_names_are_found(store, name);
    let op = accounts::insert_user_op(
        user_id,
        name,
        crate::text::trimmed(username),
        game::millis_at(now)->0,
    );
    reveal_strlit("username_normalized");
    reveal_strlit("username_display");
    reveal_strlit("created_at_ms");
    reveal_strlit("user_id");
    assert("username_normalized"@.len() == 19);
    assert("username_display"@.len() == 16);
    assert("created_at_ms"@.len() == 13);
    assert("user_id"@.len() == 7);
    model::assigned_sets(Map::empty(), op.values, 1);
    let rows = model::store_after(workflow, replies, store).rows("users"@);
    assert(model::datum_in(rows[rows.len() - 1], "username_normalized"@) == Datum::Text(name));
}

/// Making a handle of a display name.
pub open spec fn naming(name: Seq<char>, attempts: int) -> Workflow<Seq<char>, ProfileError> {
    |trace: Trace| profiles::try_handle_run(trace, name, attempts)
}

pub proof fn naming_is_in_order(name: Seq<char>, attempts: int, replies: Seq<Reply>, from: int)
    requires
        0 <= from,
    ensures
        stages::in_order(naming(name, attempts), replies, from),
    decreases attempts,
{
    let workflow = naming(name, attempts);
    if attempts > 0 {
        naming_is_in_order(name, attempts - 1, replies, from + 2);
    }
    assert forall|cut: int| 0 <= cut <= replies.len() implies steady::steady(
        workflow(Trace { replies, at: from }),
        #[trigger] stages::stage_run(workflow, replies, from, cut),
        replies,
        from,
        cut,
    ) by {
        if attempts > 0 {
            assert(stages::stage_run(naming(name, attempts - 1), replies, from + 2, cut)
                == profiles::try_handle_run(
                Trace { replies: replies.take(cut), at: from + 2 },
                name,
                attempts - 1,
            ));
        }
        if from < cut {
            assert(replies.take(cut)[from] == replies[from]);
        }
        if from + 1 < cut {
            assert(replies.take(cut)[from + 1] == replies[from + 1]);
        }
    }
}

pub proof fn handle_is_free(
    name: Seq<char>,
    attempts: int,
    replies: Seq<Reply>,
    from: int,
    store: Store,
    value: Seq<char>,
    to: int,
    after: Store,
)
    requires
        stages::played(naming(name, attempts), replies, from, store, value, to, after),
    ensures
        !name_taken(store, value),
        after == store,
    decreases attempts,
{
    let stage = naming(name, attempts);
    let rest = |suffix: Seq<u8>|
        |used: Seq<Row>, trace: Trace|
            if used.len() == 0 {
                script::done(trace, profiles::handle_of(name, suffix))
            } else {
                profiles::try_handle_run(trace, name, attempts - 1)
            };
    let drawn = |reply: Reply, trace: Trace|
        match reply {
            Reply::Bytes(bytes) if bytes@.len() == 4 => script::query(
                trace,
                by_name_op(profiles::handle_of(name, bytes@)),
                rest(bytes@),
            ),
            _ => Run { outcome: Outcome::Mismatch(trace.at - 1), trace },
        };
    assert(attempts > 0);
    naming_is_in_order(name, attempts - 1, replies, from + 2);
    let count = replies.len() as int;
    assert(replies.take(count) =~= replies);
    assert(stages::stage_run(naming(name, attempts - 1), replies, from + 2, count)
        == profiles::try_handle_run(Trace { replies, at: from + 2 }, name, attempts - 1));
    assert(to >= from + 2);
    assert forall|trace: Trace| #[trigger] stage(trace) == (if trace.spent() {
        Run { outcome: Outcome::Wait(Ask::FreshBytes(4)), trace }
    } else {
        drawn(trace.reply(), trace.next())
    }) by {}
    stages::answered(
        stage,
        Ask::FreshBytes(4),
        drawn,
        replies,
        from,
        store,
        value,
        to,
        after,
    );
    let second: Workflow<Seq<char>, ProfileError> = |trace: Trace| drawn(replies[from], trace);
    let suffix = replies[from]->Bytes_0@;
    let handle = profiles::handle_of(name, suffix);
    let used = stages::queried(
        second,
        by_name_op(handle),
        rest(suffix),
        replies,
        from + 1,
        store,
        value,
        to,
        after,
    );
    taken_names_are_found(store, handle);
    let third: Workflow<Seq<char>, ProfileError> = |trace: Trace| rest(suffix)(used, trace);
    if used.len() == 0 {
        stages::ended(third, replies, from + 2, store, value, to, after, handle);
    } else {
        let next = naming(name, attempts - 1);
        stages::same_stage(third, next, replies, from + 2, store, value, to, after);
        handle_is_free(name, attempts - 1, replies, from + 2, store, value, to, after);
    }
}

/// A generated handle is nobody's, and making it writes nothing.
pub proof fn generated_handles_are_free(
    name: Seq<char>,
    attempts: int,
    replies: Seq<Reply>,
    store: Store,
)
    requires
        model::served(naming(name, attempts), replies, store),
        model::ending(naming(name, attempts), replies) is Done,
    ensures
        !name_taken(store, model::ending(naming(name, attempts), replies)->Done_0),
        model::store_after(naming(name, attempts), replies, store) == store,
{
    let workflow = naming(name, attempts);
    let value = model::ending(workflow, replies)->Done_0;
    naming_is_in_order(name, attempts, replies, 0);
    stages::whole_is_played(workflow, replies, store, value);
    handle_is_free(
        name,
        attempts,
        replies,
        0,
        store,
        value,
        replies.len() as int,
        model::store_after(workflow, replies, store),
    );
}

/// Removing an avatar.
pub open spec fn removing(user_id: Seq<char>, now: Timestamp) -> Workflow<(), ProfileError> {
    |trace: Trace| profiles::remove_avatar_run(trace, user_id, now)
}

/// Storing a provider's avatar.
pub open spec fn offering(
    user_id: Seq<char>,
    normalized: Result<ImageView, ProfileError>,
    now: Timestamp,
) -> Workflow<Option<ImageView>, ProfileError> {
    |trace: Trace| profiles::set_google_avatar_run(trace, user_id, normalized, now)
}

/// Whether every profile of a user has this avatar source.
pub open spec fn avatar_owned(store: Store, user_id: Seq<char>, source: AvatarSource) -> bool {
    forall|i: int|
        0 <= i < store.rows("user_profiles"@).len() && of_user(
            #[trigger] store.rows("user_profiles"@)[i],
            user_id,
        ) ==> model::datum_in(store.rows("user_profiles"@)[i], "avatar_source"@) == Datum::Text(
            source.name(),
        )
}

/// A user without an avatar by choice has no stored picture and says so.
pub proof fn removing_leaves_no_avatar(
    user_id: Seq<char>,
    now: Timestamp,
    replies: Seq<Reply>,
    store: Store,
)
    requires
        model::served(removing(user_id, now), replies, store),
        model::ending(removing(user_id, now), replies) is Done,
    ensures
        ({
            let after = model::store_after(removing(user_id, now), replies, store);
            &&& avatar_owned(after, user_id, AvatarSource::CustomNone)
            &&& forall|i: int|
                0 <= i < after.rows("user_profile_images"@).len() ==> !of_user(
                    #[trigger] after.rows("user_profile_images"@)[i],
                    user_id,
                )
        }),
{
    let workflow = removing(user_id, now);
    let value = model::ending(workflow, replies)->Done_0;
    let to = replies.len() as int;
    let after = model::store_after(workflow, replies, store);
    assert forall|cut: int| 0 <= cut <= replies.len() implies steady::steady(
        workflow(Trace { replies, at: 0 }),
        #[trigger] stages::stage_run(workflow, replies, 0, cut),
        replies,
        0,
        cut,
    ) by {
        assert forall|k: int| 0 <= k < cut implies replies.take(cut)[k] == #[trigger] replies[k] by {}
    }
    stages::whole_is_played(workflow, replies, store, value);
    let now_ms = game::millis_at(now)->0;
    let delete = Op::delete("user_profile_images"@).where_text("user_id"@, user_id);
    let mark = Op::update("user_profiles"@).text(
        "avatar_source"@,
        AvatarSource::CustomNone.name(),
    ).integer("updated_at_ms"@, now_ms as int).where_text("user_id"@, user_id);
    let committing = |rows: Seq<Row>, trace: Trace| script::done::<(), ProfileError>(trace, ());
    let marked = |rows: Seq<Row>, trace: Trace| script::query(trace, Op::commit(), committing);
    let changing = |trace: Trace|
        script::chain(
            profiles::change_profile_run(
                trace,
                Op::update("user_profiles"@).text(
                    "avatar_source"@,
                    AvatarSource::CustomNone.name(),
                ),
                user_id,
                now,
            ),
            |changed: (), trace: Trace|
                script::perform(trace, Op::commit(), |trace: Trace| script::done(trace, ())),
        );
    let deleted = |rows: Seq<Row>, trace: Trace| changing(trace);
    let begun = |rows: Seq<Row>, trace: Trace| script::query(trace, delete, deleted);
    assert forall|trace: Trace| #[trigger] workflow(trace) == script::query(
        trace,
        Op::begin(),
        begun,
    ) by {}
    assert(game::millis_at(now) is Some);
    let r0 = stages::queried(workflow, Op::begin(), begun, replies, 0, store, value, to, after);
    let s1 = model::executed(store, Op::begin()).0;
    let second: Workflow<(), ProfileError> = |trace: Trace| begun(r0, trace);
    let r1 = stages::queried(second, delete, deleted, replies, 1, s1, value, to, after);
    let s2 = model::executed(s1, delete).0;
    let third: Workflow<(), ProfileError> = |trace: Trace| deleted(r1, trace);
    assert forall|trace: Trace| #[trigger] third(trace) == script::query(trace, mark, marked) by {}
    let r2 = stages::queried(third, mark, marked, replies, 2, s2, value, to, after);
    let s3 = model::executed(s2, mark).0;
    let fourth: Workflow<(), ProfileError> = |trace: Trace| marked(r2, trace);
    let r3 = stages::queried(
        fourth,
        Op::commit(),
        committing,
        replies,
        3,
        s3,
        value,
        to,
        after,
    );
    let s4 = model::executed(s3, Op::commit()).0;
    let last: Workflow<(), ProfileError> = |trace: Trace| committing(r3, trace);
    stages::ended(last, replies, 4, s4, value, to, after, ());
    reveal_strlit("user_profile_images");
    reveal_strlit("user_profiles");
    reveal_strlit("user_id");
    reveal_strlit("avatar_source");
    reveal_strlit("updated_at_ms");
    assert("user_profile_images"@.len() == 19);
    assert("user_profiles"@.len() == 13);
    assert("user_id"@.len() == 7);
    assert("avatar_source"@.len() == 13 && "avatar_source"@[0] == 'a');
    assert("updated_at_ms"@.len() == 13 && "updated_at_ms"@[0] == 'u');
    let images = s1.rows("user_profile_images"@);
    model::left_rows(images, delete.filters);
    assert(after.rows("user_profile_images"@) == model::left(images, delete.filters));
    assert forall|i: int| 0 <= i < after.rows("user_profile_images"@).len() implies !of_user(
        #[trigger] after.rows("user_profile_images"@)[i],
        user_id,
    ) by {
        let record = after.rows("user_profile_images"@)[i];
        if of_user(record, user_id) {
            assert(model::meets(record, delete.filters[0]));
            assert(model::meets_all(record, delete.filters));
        }
    }
    let before = s2.rows("user_profiles"@);
    assert(after.rows("user_profiles"@) == model::updated(before, mark.filters, mark.values));
    assert forall|i: int| 0 <= i < after.rows("user_profiles"@).len() && of_user(
        #[trigger] after.rows("user_profiles"@)[i],
        user_id,
    ) implies model::datum_in(after.rows("user_profiles"@)[i], "avatar_source"@) == Datum::Text(
        AvatarSource::CustomNone.name(),
    ) by {
        let record = before[i];
        if model::meets_all(record, mark.filters) {
            model::assigned_sets(record, mark.values, 0);
        } else {
            assert(model::meets(record, mark.filters[0]));
            assert(model::meets_all(record, mark.filters));
        }
    }
}

/// A provider's picture is stored only where the provider owns the avatar; any other avatar, and
/// the choice of none, stays, and nothing is written.
pub proof fn own_avatars_are_kept(
    user_id: Seq<char>,
    source: AvatarSource,
    normalized: Result<ImageView, ProfileError>,
    now: Timestamp,
    replies: Seq<Reply>,
    store: Store,
)
    requires
        avatar_owned(store, user_id, source),
        source != AvatarSource::Google,
        model::served(offering(user_id, normalized, now), replies, store),
        model::ending(offering(user_id, normalized, now), replies) is Done,
    ensures
        model::ending(offering(user_id, normalized, now), replies)->Done_0 is None,
        model::store_after(offering(user_id, normalized, now), replies, store) == store,
{
    let workflow = offering(user_id, normalized, now);
    let op = Op::select("user_profiles"@).where_text("user_id"@, user_id);
    let table = store.rows("user_profiles"@);
    let hits = model::found(table, op.filters);
    model::found_rows(table, op.filters);
    assert(model::served_at(workflow, replies, store, 0));
    assert(model::asked(workflow, replies, 0) == Some(Ask::Store(op)));
    assert(model::executed(store, op).1 == hits);
    let rows = replies[0]->Rows_0@;
    assert(rows.len() > 0);
    assert(model::shows(rows[0], hits[0]));
    model::shown_values(rows[0], hits[0], "avatar_source"@);
    assert(model::meets(hits[0], op.filters[0]));
    let at = choose|at: int| 0 <= at < table.len() && table[at] == hits[0];
    assert(of_user(table[at], user_id));
    assert(rows[0].text_at("avatar_source"@) == Some(source.name()));
    profiles::source_names_round_trip(profiles::ProfileFieldSource::Google, source);
    if replies.len() > 1 {
        assert(model::served_at(workflow, replies, store, 1));
        assert(replies.take(1)[0] == replies[0]);
    }
    assert(model::store_at(workflow, replies, store, 1) == store);
}

/// An avatar that was removed is not brought back by a login.
pub proof fn removed_avatars_stay_removed(
    user_id: Seq<char>,
    now: Timestamp,
    replies: Seq<Reply>,
    store: Store,
    normalized: Result<ImageView, ProfileError>,
    later: Timestamp,
    later_replies: Seq<Reply>,
)
    requires
        model::served(removing(user_id, now), replies, store),
        model::ending(removing(user_id, now), replies) is Done,
        model::served(
            offering(user_id, normalized, later),
            later_replies,
            model::store_after(removing(user_id, now), replies, store),
        ),
        model::ending(offering(user_id, normalized, later), later_replies) is Done,
    ensures
        model::ending(offering(user_id, normalized, later), later_replies)->Done_0 is None,
        model::store_after(
            offering(user_id, normalized, later),
            later_replies,
            model::store_after(removing(user_id, now), replies, store),
        ) == model::store_after(removing(user_id, now), replies, store),
{
    removing_leaves_no_avatar(user_id, now, replies, store);
    own_avatars_are_kept(
        user_id,
        AvatarSource::CustomNone,
        normalized,
        later,
        later_replies,
        model::store_after(removing(user_id, now), replies, store),
    );
}

} // verus!
