//! What happens at most once: claims, redemptions, acceptances and starts.
//!
//! Every law speaks of workflows whose replies a store of [`crate::model`] gives.
use crate::challenges::{self, ChallengeError, ChallengeStatus};
use crate::crypto;
use crate::frames;
use crate::game::{self, GameId, Timestamp};
use crate::invitations::{self, InvitationError};
use crate::model::{self, Record, Store, Workflow};
use crate::oidc_attempts::{self, ClaimedView, OidcAttemptError};
use crate::script::{Ask, Outcome, Reply, Trace};
use crate::store::{Datum, Op, Row};
use vstd::prelude::*;

verus! {

/// Claiming a login attempt.
pub open spec fn claiming(state: Seq<char>, binding: Seq<char>, now: Timestamp) -> Workflow<
    ClaimedView,
    OidcAttemptError,
> {
    |trace: Trace| oidc_attempts::claim_run(trace, state, binding, now)
}

/// Whether some row of a table holds these two texts.
pub open spec fn holds_both(
    rows: Seq<Record>,
    first: Seq<char>,
    first_text: Seq<char>,
    second: Seq<char>,
    second_text: Seq<char>,
) -> bool {
    exists|i: int|
        0 <= i < rows.len() && model::datum_in(#[trigger] rows[i], first) == Datum::Text(first_text)
            && model::datum_in(rows[i], second) == Datum::Text(second_text)
}

/// Whether a store has a pending login attempt with this state.
pub open spec fn attempt_pending(store: Store, state: Seq<char>) -> bool {
    holds_both(
        store.rows("auth_login_attempts"@),
        "state_hash"@,
        crypto::token_hash_of(state),
        "status"@,
        "PENDING"@,
    )
}

/// Whether no two rows of a table hold the same text in a column.
pub open spec fn unique_text(rows: Seq<Record>, column: Seq<char>) -> bool {
    forall|i: int, j: int|
        0 <= i < j < rows.len() && (model::datum_in(#[trigger] rows[i], column) is Text)
            ==> model::datum_in(rows[i], column) != model::datum_in(#[trigger] rows[j], column)
}

/// An attempt that is not pending cannot be claimed, by whichever browser and whenever.
pub proof fn only_pending_attempts_are_claimed(
    state: Seq<char>,
    binding: Seq<char>,
    now: Timestamp,
    replies: Seq<Reply>,
    store: Store,
)
    requires
        model::served(claiming(state, binding, now), replies, store),
        !attempt_pending(store, state),
        replies.len() > 0,
    ensures
        model::ending(claiming(state, binding, now), replies) == Outcome::<
            ClaimedView,
            OidcAttemptError,
        >::Fail(OidcAttemptError::Invalid),
        model::store_after(claiming(state, binding, now), replies, store) == store,
{
    let workflow = claiming(state, binding, now);
    let op = oidc_attempts::pending_attempt_op(state, binding);
    assert(model::served_at(workflow, replies, store, 0));
    assert(model::asked(workflow, replies, 0) == Some(Ask::Store(op)));
    let rows = store.rows("auth_login_attempts"@);
    model::found_rows(rows, op.filters);
    if model::found(rows, op.filters).len() > 0 {
        let i = choose|i: int|
            0 <= i < rows.len() && model::meets_all(#[trigger] rows[i], op.filters);
        assert(model::meets(rows[i], op.filters[0]));
        assert(model::meets(rows[i], op.filters[2]));
    }
    if replies.len() > 1 {
        assert(model::served_at(workflow, replies, store, 1));
        assert(replies.take(1)[0] == replies[0]);
    }
    assert(model::store_at(workflow, replies, store, 1) == store);
}

/// After a successful claim the attempt is pending no more.
pub proof fn claiming_ends_pending(
    state: Seq<char>,
    binding: Seq<char>,
    now: Timestamp,
    replies: Seq<Reply>,
    store: Store,
)
    requires
        unique_text(store.rows("auth_login_attempts"@), "state_hash"@),
        model::served(claiming(state, binding, now), replies, store),
        model::ending(claiming(state, binding, now), replies) is Done,
    ensures
        !attempt_pending(
            model::store_after(claiming(state, binding, now), replies, store),
            state,
        ),
{
    let workflow = claiming(state, binding, now);
    let table = "auth_login_attempts"@;
    let hash = crypto::token_hash_of(state);
    let pending = oidc_attempts::pending_attempt_op(state, binding);
    let rows = store.rows(table);
    assert(model::asked(workflow, replies, 0) == Some(Ask::Store(pending)));
    assert(replies.len() > 0) by {
        if replies.len() == 0 {
            assert(replies =~= replies.take(0));
        }
    }
    assert(model::served_at(workflow, replies, store, 0));
    assert(model::store_at(workflow, replies, store, 1) == store);
    let attempt = model::ending(workflow, replies)->Done_0;
    let now_ms = crate::game::millis_at(now)->0;
    let claim = oidc_attempts::claim_op(attempt.attempt_id, state, now_ms);
    assert(replies.len() > 1) by {
        if replies.len() == 1 {
            assert(replies =~= replies.take(1));
        }
    }
    assert(replies.take(1)[0] == replies[0]);
    assert(model::asked(workflow, replies, 1) == Some(Ask::Store(claim)));
    assert(model::served_at(workflow, replies, store, 1));
    let after = model::executed(store, claim).0;
    assert(model::store_at(workflow, replies, store, 2) == after);
    if replies.len() > 2 {
        assert(replies.take(2)[0] == replies[0]);
        assert(replies.take(2)[1] == replies[1]);
        assert(model::served_at(workflow, replies, store, 2));
        assert(false);
    }
    let hit = model::found(rows, pending.filters)[0];
    model::found_rows(rows, pending.filters);
    assert(model::meets(hit, pending.filters[0]));
    let shown = replies[0]->Rows_0@[0];
    model::shown_values(shown, hit, "attempt_id"@);
    let f = choose|f: int| 0 <= f < rows.len() && rows[f] == hit;
    let changed = after.rows(table);
    reveal_strlit("PENDING");
    reveal_strlit("CLAIMED");
    reveal_strlit("status");
    reveal_strlit("claimed_at_ms");
    assert("PENDING"@[0] == 'P');
    assert("CLAIMED"@[0] == 'C');
    assert("status"@.len() == 6);
    assert("claimed_at_ms"@.len() == 13);
    assert forall|i: int| 0 <= i < changed.len() implies !(model::datum_in(
        #[trigger] changed[i],
        "state_hash"@,
    ) == Datum::Text(hash) && model::datum_in(changed[i], "status"@) == Datum::Text("PENDING"@)) by {
        if model::meets_all(rows[i], claim.filters) {
            model::assigned_sets(rows[i], claim.values, 0);
        } else if model::datum_in(rows[i], "state_hash"@) == Datum::Text(hash) && model::datum_in(
            rows[i],
            "status"@,
        ) == Datum::Text("PENDING"@) {
            assert(i == f);
            assert forall|k: int| 0 <= k < claim.filters.len() implies model::meets(
                rows[i],
                #[trigger] claim.filters[k],
            ) by {}
        }
    }
}

/// A login attempt is claimed at most once: after one success every other claim with its state is
/// refused.
pub proof fn attempts_are_claimed_once(
    state: Seq<char>,
    binding: Seq<char>,
    now: Timestamp,
    replies: Seq<Reply>,
    store: Store,
    later_binding: Seq<char>,
    later: Timestamp,
    later_replies: Seq<Reply>,
)
    requires
        unique_text(store.rows("auth_login_attempts"@), "state_hash"@),
        model::served(claiming(state, binding, now), replies, store),
        model::ending(claiming(state, binding, now), replies) is Done,
        model::served(
            claiming(state, later_binding, later),
            later_replies,
            model::store_after(claiming(state, binding, now), replies, store),
        ),
        later_replies.len() > 0,
    ensures
        model::ending(claiming(state, later_binding, later), later_replies) == Outcome::<
            ClaimedView,
            OidcAttemptError,
        >::Fail(OidcAttemptError::Invalid),
{
    claiming_ends_pending(state, binding, now, replies, store);
    only_pending_attempts_are_claimed(
        state,
        later_binding,
        later,
        later_replies,
        model::store_after(claiming(state, binding, now), replies, store),
    );
}

/// Consuming a claimed attempt.
pub open spec fn consuming(attempt_id: Seq<char>, now: Timestamp) -> Workflow<
    (),
    OidcAttemptError,
> {
    |trace: Trace| oidc_attempts::consume_run(trace, attempt_id, now)
}

/// A claimed attempt is consumed at most once: after one success every other consumption is
/// refused.
pub proof fn attempts_are_consumed_once(
    attempt_id: Seq<char>,
    now: Timestamp,
    replies: Seq<Reply>,
    store: Store,
    later: Timestamp,
    later_replies: Seq<Reply>,
)
    requires
        model::served(consuming(attempt_id, now), replies, store),
        model::ending(consuming(attempt_id, now), replies) is Done,
        model::served(
            consuming(attempt_id, later),
            later_replies,
            model::store_after(consuming(attempt_id, now), replies, store),
        ),
    ensures
        !(model::ending(consuming(attempt_id, later), later_replies) is Done),
{
    let workflow = consuming(attempt_id, now);
    let table = "auth_login_attempts"@;
    let rows = store.rows(table);
    let op = oidc_attempts::consume_op(attempt_id, game::millis_at(now)->0);
    assert(replies.len() > 0) by {
        if replies.len() == 0 {
            assert(replies =~= replies.take(0));
        }
    }
    assert(model::asked(workflow, replies, 0) == Some(Ask::Store(op)));
    assert(model::served_at(workflow, replies, store, 0));
    let after = model::executed(store, op).0;
    assert(model::store_at(workflow, replies, store, 1) == after);
    if replies.len() > 1 {
        assert(replies.take(1)[0] == replies[0]);
        assert(model::served_at(workflow, replies, store, 1));
    }
    let again = consuming(attempt_id, later);
    if later_replies.len() > 0 && game::millis_at(later) is Some {
        let second = oidc_attempts::consume_op(attempt_id, game::millis_at(later)->0);
        assert(model::asked(again, later_replies, 0) == Some(Ask::Store(second)));
        assert(model::served_at(again, later_replies, after, 0));
        let changed = after.rows(table);
        model::found_rows(changed, second.filters);
        reveal_strlit("CLAIMED");
        reveal_strlit("CONSUMED");
        reveal_strlit("status");
        reveal_strlit("consumed_at_ms");
        assert("CLAIMED"@.len() == 7);
        assert("CONSUMED"@.len() == 8);
        assert("status"@.len() == 6);
        assert("consumed_at_ms"@.len() == 14);
        assert forall|i: int| 0 <= i < changed.len() implies !model::meets_all(
            #[trigger] changed[i],
            second.filters,
        ) by {
            assert(second.filters[1] == op.filters[1]);
            if model::meets_all(changed[i], second.filters) {
                assert(model::meets(changed[i], second.filters[0]));
                assert(model::meets(changed[i], second.filters[1]));
                if model::meets_all(rows[i], op.filters) {
                    model::assigned_sets(rows[i], op.values, 0);
                } else {
                    assert forall|k: int| 0 <= k < op.filters.len() implies model::meets(
                        rows[i],
                        #[trigger] op.filters[k],
                    ) by {}
                }
            }
        }
    }
}

/// Accepting a challenge.
pub open spec fn accepting(
    challenge_id: Seq<char>,
    challenged: Seq<char>,
    now: Timestamp,
    seed: u64,
) -> Workflow<GameId, ChallengeError> {
    |trace: Trace| challenges::accept_challenge_run(trace, challenge_id, challenged, now, seed)
}

/// Resolving a challenge from one side: declining it or cancelling it.
pub open spec fn resolving(
    challenge_id: Seq<char>,
    owner_column: Seq<char>,
    owner: Seq<char>,
    status: ChallengeStatus,
    now: Timestamp,
) -> Workflow<(), ChallengeError> {
    |trace: Trace|
        challenges::resolve_run(trace, challenge_id, owner_column, owner, status, now)
}

/// Whether a store has a pending challenge with this identity.
pub open spec fn challenge_pending(store: Store, challenge_id: Seq<char>) -> bool {
    holds_both(
        store.rows("challenges"@),
        "challenge_id"@,
        challenge_id,
        "status"@,
        ChallengeStatus::Pending.name(),
    )
}

/// Only a pending challenge is accepted; any other is refused before anything is written.
pub proof fn only_pending_challenges_are_accepted(
    challenge_id: Seq<char>,
    challenged: Seq<char>,
    now: Timestamp,
    seed: u64,
    replies: Seq<Reply>,
    store: Store,
)
    requires
        model::served(accepting(challenge_id, challenged, now, seed), replies, store),
        !challenge_pending(store, challenge_id),
        replies.len() > 1,
    ensures
        model::ending(accepting(challenge_id, challenged, now, seed), replies) == Outcome::<
            GameId,
            ChallengeError,
        >::Fail(ChallengeError::Unauthorized),
        model::store_after(accepting(challenge_id, challenged, now, seed), replies, store).tables
            == store.tables,
{
    let workflow = accepting(challenge_id, challenged, now, seed);
    let op = challenges::select_owned_pending_op(challenge_id, challenged);
    let begun = model::executed(store, Op::begin()).0;
    assert(model::asked(workflow, replies, 0) == Some(Ask::Store(Op::begin())));
    assert(model::served_at(workflow, replies, store, 0));
    assert(model::store_at(workflow, replies, store, 1) == begun);
    assert(replies.take(1)[0] == replies[0]);
    assert(model::asked(workflow, replies, 1) == Some(Ask::Store(op)));
    assert(model::served_at(workflow, replies, store, 1));
    assert(model::store_at(workflow, replies, store, 2) == begun);
    let rows = store.rows("challenges"@);
    model::found_rows(rows, op.filters);
    if model::found(rows, op.filters).len() > 0 {
        let i = choose|i: int|
            0 <= i < rows.len() && model::meets_all(#[trigger] rows[i], op.filters);
        assert(model::meets(rows[i], op.filters[0]));
        assert(model::meets(rows[i], op.filters[2]));
    }
    if replies.len() > 2 {
        assert(replies.take(2)[0] == replies[0]);
        assert(replies.take(2)[1] == replies[1]);
        assert(model::served_at(workflow, replies, store, 2));
    }
}

/// Only a pending challenge is declined or cancelled.
pub proof fn only_pending_challenges_are_resolved(
    challenge_id: Seq<char>,
    owner_column: Seq<char>,
    owner: Seq<char>,
    status: ChallengeStatus,
    now: Timestamp,
    replies: Seq<Reply>,
    store: Store,
)
    requires
        model::served(
            resolving(challenge_id, owner_column, owner, status, now),
            replies,
            store,
        ),
        !challenge_pending(store, challenge_id),
    ensures
        !(model::ending(
            resolving(challenge_id, owner_column, owner, status, now),
            replies,
        ) is Done),
{
    let workflow = resolving(challenge_id, owner_column, owner, status, now);
    if replies.len() > 0 && game::millis_at(now) is Some {
        let op = challenges::resolve_op(
            challenge_id,
            owner_column,
            owner,
            status,
            game::millis_at(now)->0,
        );
        assert(model::asked(workflow, replies, 0) == Some(Ask::Store(op)));
        assert(model::served_at(workflow, replies, store, 0));
        let rows = store.rows("challenges"@);
        model::found_rows(rows, op.filters);
        if model::found(rows, op.filters).len() > 0 {
            let i = choose|i: int|
                0 <= i < rows.len() && model::meets_all(#[trigger] rows[i], op.filters);
            assert(model::meets(rows[i], op.filters[0]));
            assert(model::meets(rows[i], op.filters[2]));
        }
    }
}

/// A challenge that was declined or cancelled is pending no more.
pub proof fn resolving_ends_pending(
    challenge_id: Seq<char>,
    owner_column: Seq<char>,
    owner: Seq<char>,
    status: ChallengeStatus,
    now: Timestamp,
    replies: Seq<Reply>,
    store: Store,
)
    requires
        unique_text(store.rows("challenges"@), "challenge_id"@),
        status != ChallengeStatus::Pending,
        model::served(
            resolving(challenge_id, owner_column, owner, status, now),
            replies,
            store,
        ),
        model::ending(resolving(challenge_id, owner_column, owner, status, now), replies) is Done,
    ensures
        !challenge_pending(
            model::store_after(
                resolving(challenge_id, owner_column, owner, status, now),
                replies,
                store,
            ),
            challenge_id,
        ),
{
    let workflow = resolving(challenge_id, owner_column, owner, status, now);
    let op = challenges::resolve_op(
        challenge_id,
        owner_column,
        owner,
        status,
        game::millis_at(now)->0,
    );
    let rows = store.rows("challenges"@);
    let after = model::executed(store, op).0;
    assert(model::asked(workflow, replies, 0) == Some(Ask::Store(op)));
    assert(model::served_at(workflow, replies, store, 0));
    assert(model::store_at(workflow, replies, store, 1) == after);
    if replies.len() > 1 {
        assert(replies.take(1)[0] == replies[0]);
        assert(model::served_at(workflow, replies, store, 1));
    }
    model::found_rows(rows, op.filters);
    assert(model::executed(store, op).1.len() == model::found(rows, op.filters).len());
    let f = choose|f: int| 0 <= f < rows.len() && model::meets_all(#[trigger] rows[f], op.filters);
    assert(model::meets(rows[f], op.filters[0]));
    challenges::status_names_differ(status);
    reveal_strlit("status");
    reveal_strlit("updated_at_ms");
    reveal_strlit("challenge_id");
    assert("status"@.len() == 6);
    assert("updated_at_ms"@.len() == 13);
    assert("challenge_id"@.len() == 12);
    let changed = after.rows("challenges"@);
    assert(changed == model::updated(rows, op.filters, op.values));
    assert forall|i: int| 0 <= i < changed.len() implies !(model::datum_in(
        #[trigger] changed[i],
        "challenge_id"@,
    ) == Datum::Text(challenge_id) && model::datum_in(changed[i], "status"@) == Datum::Text(
        ChallengeStatus::Pending.name(),
    )) by {
        if model::meets_all(rows[i], op.filters) {
            model::assigned_sets(rows[i], op.values, 0);
        } else if model::datum_in(rows[i], "challenge_id"@) == Datum::Text(challenge_id) {
            assert(i == f);
        }
    }
}

/// A challenge that was declined or cancelled is not accepted afterwards, and nothing is written.
pub proof fn resolved_challenges_are_not_accepted(
    challenge_id: Seq<char>,
    owner_column: Seq<char>,
    owner: Seq<char>,
    status: ChallengeStatus,
    now: Timestamp,
    replies: Seq<Reply>,
    store: Store,
    challenged: Seq<char>,
    later: Timestamp,
    seed: u64,
    later_replies: Seq<Reply>,
)
    requires
        unique_text(store.rows("challenges"@), "challenge_id"@),
        status != ChallengeStatus::Pending,
        model::served(
            resolving(challenge_id, owner_column, owner, status, now),
            replies,
            store,
        ),
        model::ending(resolving(challenge_id, owner_column, owner, status, now), replies) is Done,
        model::served(
            accepting(challenge_id, challenged, later, seed),
            later_replies,
            model::store_after(
                resolving(challenge_id, owner_column, owner, status, now),
                replies,
                store,
            ),
        ),
        later_replies.len() > 1,
    ensures
        model::ending(accepting(challenge_id, challenged, later, seed), later_replies) == Outcome::<
            GameId,
            ChallengeError,
        >::Fail(ChallengeError::Unauthorized),
        model::store_after(
            accepting(challenge_id, challenged, later, seed),
            later_replies,
            model::store_after(
                resolving(challenge_id, owner_column, owner, status, now),
                replies,
                store,
            ),
        ).tables == model::store_after(
            resolving(challenge_id, owner_column, owner, status, now),
            replies,
            store,
        ).tables,
{
    resolving_ends_pending(challenge_id, owner_column, owner, status, now, replies, store);
    only_pending_challenges_are_accepted(
        challenge_id,
        challenged,
        later,
        seed,
        later_replies,
        model::store_after(
            resolving(challenge_id, owner_column, owner, status, now),
            replies,
            store,
        ),
    );
}

/// After a successful acceptance the challenge is pending no more.
pub proof fn accepting_ends_pending(
    challenge_id: Seq<char>,
    challenged: Seq<char>,
    now: Timestamp,
    seed: u64,
    replies: Seq<Reply>,
    store: Store,
)
    requires
        model::served(accepting(challenge_id, challenged, now, seed), replies, store),
        model::ending(accepting(challenge_id, challenged, now, seed), replies) is Done,
    ensures
        !challenge_pending(
            model::store_after(accepting(challenge_id, challenged, now, seed), replies, store),
            challenge_id,
        ),
{
    let workflow = accepting(challenge_id, challenged, now, seed);
    let table = "challenges"@;
    let select = challenges::select_owned_pending_op(challenge_id, challenged);
    let begun = model::executed(store, Op::begin()).0;
    assert(replies.len() > 2) by {
        if replies.len() <= 2 {
            assert(replies =~= replies.take(replies.len() as int));
        }
    }
    assert(model::asked(workflow, replies, 0) == Some(Ask::Store(Op::begin())));
    assert(model::served_at(workflow, replies, store, 0));
    assert(model::store_at(workflow, replies, store, 1) == begun);
    assert(replies.take(1)[0] == replies[0]);
    assert(model::asked(workflow, replies, 1) == Some(Ask::Store(select)));
    assert(model::served_at(workflow, replies, store, 1));
    assert(model::store_at(workflow, replies, store, 2) == begun);
    assert(replies.take(2)[0] == replies[0]);
    assert(replies.take(2)[1] == replies[1]);
    let now_ms = game::millis_at(now)->0;
    let accept = challenges::accept_op(challenge_id, now_ms);
    assert(model::asked(workflow, replies, 2) == Some(Ask::Store(accept)));
    assert(model::served_at(workflow, replies, store, 2));
    let after = model::executed(begun, accept).0;
    assert(model::store_at(workflow, replies, store, 3) == after);
    let rows = begun.rows(table);
    let changed = after.rows(table);
    let challenger = replies[1]->Rows_0@[0].text_at("challenger_user_id"@)->0;
    assert forall|place: int| 3 <= place < replies.len() implies (#[trigger] model::asked(
        workflow,
        replies,
        place,
    ) matches Some(ask) ==> frames::game_ask(ask) || ask == Ask::Store(Op::commit())) by {
        let cut = Trace { replies: replies.take(place), at: 0 };
        assert(cut.replies[0] == replies[0]);
        assert(cut.replies[1] == replies[1]);
        assert(cut.replies[2] == replies[2]);
        frames::classic_creation_keeps(
            cut.next().next().next(),
            seq![challenger, challenged],
            0,
            now,
            seed,
            "accept:"@ + challenge_id,
        );
    }
    frames::other_tables();
    frames::table_stays(workflow, replies, store, 3, replies.len() as int, table);
    reveal_strlit("PENDING");
    reveal_strlit("ACCEPTED");
    reveal_strlit("status");
    reveal_strlit("updated_at_ms");
    assert("PENDING"@.len() == 7);
    assert("ACCEPTED"@.len() == 8);
    assert("status"@.len() == 6);
    assert("updated_at_ms"@.len() == 13);
    assert forall|i: int| 0 <= i < changed.len() implies !(model::datum_in(
        #[trigger] changed[i],
        "challenge_id"@,
    ) == Datum::Text(challenge_id) && model::datum_in(changed[i], "status"@) == Datum::Text(
        "PENDING"@,
    )) by {
        if model::meets_all(rows[i], accept.filters) {
            model::assigned_sets(rows[i], accept.values, 0);
        } else if model::datum_in(rows[i], "challenge_id"@) == Datum::Text(challenge_id)
            && model::datum_in(rows[i], "status"@) == Datum::Text("PENDING"@) {
            assert forall|k: int| 0 <= k < accept.filters.len() implies model::meets(
                rows[i],
                #[trigger] accept.filters[k],
            ) by {}
        }
    }
}

/// A challenge creates at most one game: after one acceptance every other acceptance is refused,
/// whoever tries.
pub proof fn challenges_are_accepted_once(
    challenge_id: Seq<char>,
    challenged: Seq<char>,
    now: Timestamp,
    seed: u64,
    replies: Seq<Reply>,
    store: Store,
    later_challenged: Seq<char>,
    later: Timestamp,
    later_seed: u64,
    later_replies: Seq<Reply>,
)
    requires
        model::served(accepting(challenge_id, challenged, now, seed), replies, store),
        model::ending(accepting(challenge_id, challenged, now, seed), replies) is Done,
        model::served(
            accepting(challenge_id, later_challenged, later, later_seed),
            later_replies,
            model::store_after(accepting(challenge_id, challenged, now, seed), replies, store),
        ),
        later_replies.len() > 1,
    ensures
        model::ending(
            accepting(challenge_id, later_challenged, later, later_seed),
            later_replies,
        ) == Outcome::<GameId, ChallengeError>::Fail(ChallengeError::Unauthorized),
{
    accepting_ends_pending(challenge_id, challenged, now, seed, replies, store);
    only_pending_challenges_are_accepted(
        challenge_id,
        later_challenged,
        later,
        later_seed,
        later_replies,
        model::store_after(accepting(challenge_id, challenged, now, seed), replies, store),
    );
}

/// An accepted challenge can be neither declined nor cancelled.
pub proof fn accepted_challenges_stay_accepted(
    challenge_id: Seq<char>,
    challenged: Seq<char>,
    now: Timestamp,
    seed: u64,
    replies: Seq<Reply>,
    store: Store,
    owner_column: Seq<char>,
    owner: Seq<char>,
    status: ChallengeStatus,
    later: Timestamp,
    later_replies: Seq<Reply>,
)
    requires
        model::served(accepting(challenge_id, challenged, now, seed), replies, store),
        model::ending(accepting(challenge_id, challenged, now, seed), replies) is Done,
        model::served(
            resolving(challenge_id, owner_column, owner, status, later),
            later_replies,
            model::store_after(accepting(challenge_id, challenged, now, seed), replies, store),
        ),
    ensures
        !(model::ending(
            resolving(challenge_id, owner_column, owner, status, later),
            later_replies,
        ) is Done),
{
    accepting_ends_pending(challenge_id, challenged, now, seed, replies, store);
    only_pending_challenges_are_resolved(
        challenge_id,
        owner_column,
        owner,
        status,
        later,
        later_replies,
        model::store_after(accepting(challenge_id, challenged, now, seed), replies, store),
    );
}

/// Redeeming an invitation.
pub open spec fn redeeming(secret: Seq<char>, redeemer: Seq<char>, now: Timestamp) -> Workflow<
    Seq<char>,
    InvitationError,
> {
    |trace: Trace| invitations::redeem_run(trace, secret, redeemer, now)
}

/// Redeeming an invitation and starting its game.
pub open spec fn starting_from_invitation(
    secret: Seq<char>,
    redeemer: Seq<char>,
    now: Timestamp,
    seed: u64,
) -> Workflow<GameId, InvitationError> {
    |trace: Trace| invitations::redeem_and_start_run(trace, secret, redeemer, now, seed)
}

/// Whether a store has an active invitation with this secret.
pub open spec fn invitation_active(store: Store, secret: Seq<char>) -> bool {
    holds_both(
        store.rows("invitations"@),
        "token_hash"@,
        crypto::token_hash_of(secret),
        "status"@,
        "ACTIVE"@,
    )
}

pub open spec fn select_active_op(secret: Seq<char>) -> Op {
    Op::select("invitations"@).where_text(
        "token_hash"@,
        crypto::token_hash_of(secret),
    ).where_text("status"@, "ACTIVE"@)
}

/// Only an active invitation is redeemed; any other is refused before anything is written.
pub proof fn only_active_invitations_are_redeemed(
    secret: Seq<char>,
    redeemer: Seq<char>,
    now: Timestamp,
    replies: Seq<Reply>,
    store: Store,
)
    requires
        model::served(redeeming(secret, redeemer, now), replies, store),
        !invitation_active(store, secret),
        replies.len() > 1,
    ensures
        model::ending(redeeming(secret, redeemer, now), replies) == Outcome::<
            Seq<char>,
            InvitationError,
        >::Fail(InvitationError::Invalid),
        model::store_after(redeeming(secret, redeemer, now), replies, store).tables
            == store.tables,
{
    let workflow = redeeming(secret, redeemer, now);
    let op = select_active_op(secret);
    let begun = model::executed(store, Op::begin()).0;
    assert(model::asked(workflow, replies, 0) == Some(Ask::Store(Op::begin())));
    assert(model::served_at(workflow, replies, store, 0));
    assert(model::store_at(workflow, replies, store, 1) == begun);
    assert(replies.take(1)[0] == replies[0]);
    assert(model::asked(workflow, replies, 1) == Some(Ask::Store(op)));
    assert(model::served_at(workflow, replies, store, 1));
    assert(model::store_at(workflow, replies, store, 2) == begun);
    no_active_row(store, secret);
    if replies.len() > 2 {
        assert(replies.take(2)[0] == replies[0]);
        assert(replies.take(2)[1] == replies[1]);
        assert(model::served_at(workflow, replies, store, 2));
    }
}

/// Only an active invitation starts a game; any other is refused before anything is written.
pub proof fn only_active_invitations_start_games(
    secret: Seq<char>,
    redeemer: Seq<char>,
    now: Timestamp,
    seed: u64,
    replies: Seq<Reply>,
    store: Store,
)
    requires
        model::served(starting_from_invitation(secret, redeemer, now, seed), replies, store),
        !invitation_active(store, secret),
        replies.len() > 1,
    ensures
        model::ending(starting_from_invitation(secret, redeemer, now, seed), replies) == Outcome::<
            GameId,
            InvitationError,
        >::Fail(InvitationError::Invalid),
        model::store_after(
            starting_from_invitation(secret, redeemer, now, seed),
            replies,
            store,
        ).tables == store.tables,
{
    let workflow = starting_from_invitation(secret, redeemer, now, seed);
    let op = select_active_op(secret);
    let begun = model::executed(store, Op::begin()).0;
    assert(model::asked(workflow, replies, 0) == Some(Ask::Store(Op::begin())));
    assert(model::served_at(workflow, replies, store, 0));
    assert(model::store_at(workflow, replies, store, 1) == begun);
    assert(replies.take(1)[0] == replies[0]);
    assert(model::asked(workflow, replies, 1) == Some(Ask::Store(op)));
    assert(model::served_at(workflow, replies, store, 1));
    assert(model::store_at(workflow, replies, store, 2) == begun);
    no_active_row(store, secret);
    if replies.len() > 2 {
        assert(replies.take(2)[0] == replies[0]);
        assert(replies.take(2)[1] == replies[1]);
        assert(model::served_at(workflow, replies, store, 2));
    }
}

proof fn no_active_row(store: Store, secret: Seq<char>)
    requires
        !invitation_active(store, secret),
    ensures
        model::found(store.rows("invitations"@), select_active_op(secret).filters).len() == 0,
{
    let op = select_active_op(secret);
    let rows = store.rows("invitations"@);
    model::found_rows(rows, op.filters);
    if model::found(rows, op.filters).len() > 0 {
        let i = choose|i: int|
            0 <= i < rows.len() && model::meets_all(#[trigger] rows[i], op.filters);
        assert(model::meets(rows[i], op.filters[0]));
        assert(model::meets(rows[i], op.filters[1]));
    }
}

/// Marking the invitation that an active row shows leaves no active row with its secret.
proof fn marking_ends_active(
    store: Store,
    secret: Seq<char>,
    redeemer: Seq<char>,
    id: Seq<char>,
    shown: Row,
)
    requires
        unique_text(store.rows("invitations"@), "token_hash"@),
        model::found(store.rows("invitations"@), select_active_op(secret).filters).len() > 0,
        model::shows(
            shown,
            model::found(store.rows("invitations"@), select_active_op(secret).filters)[0],
        ),
        shown.text_at("invitation_id"@) == Some(id),
    ensures
        !invitation_active(model::executed(store, invitations::redeem_op(id, redeemer)).0, secret),
{
    let table = "invitations"@;
    let rows = store.rows(table);
    let select = select_active_op(secret);
    let op = invitations::redeem_op(id, redeemer);
    let hash = crypto::token_hash_of(secret);
    let changed = model::executed(store, op).0.rows(table);
    let hit = model::found(rows, select.filters)[0];
    model::found_rows(rows, select.filters);
    assert(model::meets(hit, select.filters[0]));
    model::shown_values(shown, hit, "invitation_id"@);
    let f = choose|f: int| 0 <= f < rows.len() && rows[f] == hit;
    reveal_strlit("ACTIVE");
    reveal_strlit("REDEEMED");
    reveal_strlit("status");
    reveal_strlit("redeemed_by_user_id");
    assert("ACTIVE"@.len() == 6);
    assert("REDEEMED"@.len() == 8);
    assert("status"@.len() == 6);
    assert("redeemed_by_user_id"@.len() == 19);
    assert forall|i: int| 0 <= i < changed.len() implies !(model::datum_in(
        #[trigger] changed[i],
        "token_hash"@,
    ) == Datum::Text(hash) && model::datum_in(changed[i], "status"@) == Datum::Text("ACTIVE"@)) by {
        if model::meets_all(rows[i], op.filters) {
            model::assigned_sets(rows[i], op.values, 0);
        } else if model::datum_in(rows[i], "token_hash"@) == Datum::Text(hash) && model::datum_in(
            rows[i],
            "status"@,
        ) == Datum::Text("ACTIVE"@) {
            assert(i == f);
            assert forall|k: int| 0 <= k < op.filters.len() implies model::meets(
                rows[i],
                #[trigger] op.filters[k],
            ) by {}
        }
    }
}

/// After a successful redemption the invitation is active no more.
pub proof fn redeeming_ends_active(
    secret: Seq<char>,
    redeemer: Seq<char>,
    now: Timestamp,
    replies: Seq<Reply>,
    store: Store,
)
    requires
        unique_text(store.rows("invitations"@), "token_hash"@),
        model::served(redeeming(secret, redeemer, now), replies, store),
        model::ending(redeeming(secret, redeemer, now), replies) is Done,
    ensures
        !invitation_active(
            model::store_after(redeeming(secret, redeemer, now), replies, store),
            secret,
        ),
{
    let workflow = redeeming(secret, redeemer, now);
    let select = select_active_op(secret);
    let begun = model::executed(store, Op::begin()).0;
    assert(replies.len() > 3) by {
        if replies.len() <= 3 {
            assert(replies =~= replies.take(replies.len() as int));
        }
    }
    assert(model::asked(workflow, replies, 0) == Some(Ask::Store(Op::begin())));
    assert(model::served_at(workflow, replies, store, 0));
    assert(model::store_at(workflow, replies, store, 1) == begun);
    assert(replies.take(1)[0] == replies[0]);
    assert(model::asked(workflow, replies, 1) == Some(Ask::Store(select)));
    assert(model::served_at(workflow, replies, store, 1));
    assert(model::store_at(workflow, replies, store, 2) == begun);
    assert(replies.take(2)[0] == replies[0]);
    assert(replies.take(2)[1] == replies[1]);
    let shown = replies[1]->Rows_0@[0];
    let id = model::ending(workflow, replies)->Done_0;
    let op = invitations::redeem_op(id, redeemer);
    assert(model::asked(workflow, replies, 2) == Some(Ask::Store(op)));
    assert(model::served_at(workflow, replies, store, 2));
    let after = model::executed(begun, op).0;
    assert(model::store_at(workflow, replies, store, 3) == after);
    marking_ends_active(begun, secret, redeemer, id, shown);
    assert(replies.take(3)[0] == replies[0]);
    assert(replies.take(3)[1] == replies[1]);
    assert(replies.take(3)[2] == replies[2]);
    assert(model::asked(workflow, replies, 3) == Some(Ask::Store(Op::commit())));
    assert(model::store_at(workflow, replies, store, 4).tables == after.tables);
    if replies.len() > 4 {
        assert(replies.take(4)[0] == replies[0]);
        assert(replies.take(4)[1] == replies[1]);
        assert(replies.take(4)[2] == replies[2]);
        assert(replies.take(4)[3] == replies[3]);
        assert(model::served_at(workflow, replies, store, 4));
    }
}

/// After an invitation has started a game it is active no more.
pub proof fn starting_ends_active(
    secret: Seq<char>,
    redeemer: Seq<char>,
    now: Timestamp,
    seed: u64,
    replies: Seq<Reply>,
    store: Store,
)
    requires
        unique_text(store.rows("invitations"@), "token_hash"@),
        model::served(starting_from_invitation(secret, redeemer, now, seed), replies, store),
        model::ending(starting_from_invitation(secret, redeemer, now, seed), replies) is Done,
    ensures
        !invitation_active(
            model::store_after(
                starting_from_invitation(secret, redeemer, now, seed),
                replies,
                store,
            ),
            secret,
        ),
{
    let workflow = starting_from_invitation(secret, redeemer, now, seed);
    let select = select_active_op(secret);
    let begun = model::executed(store, Op::begin()).0;
    assert(replies.len() > 2) by {
        if replies.len() <= 2 {
            assert(replies =~= replies.take(replies.len() as int));
        }
    }
    assert(model::asked(workflow, replies, 0) == Some(Ask::Store(Op::begin())));
    assert(model::served_at(workflow, replies, store, 0));
    assert(model::store_at(workflow, replies, store, 1) == begun);
    assert(replies.take(1)[0] == replies[0]);
    assert(model::asked(workflow, replies, 1) == Some(Ask::Store(select)));
    assert(model::served_at(workflow, replies, store, 1));
    assert(model::store_at(workflow, replies, store, 2) == begun);
    assert(replies.take(2)[0] == replies[0]);
    assert(replies.take(2)[1] == replies[1]);
    let shown = replies[1]->Rows_0@[0];
    let id = shown.text_at("invitation_id"@)->0;
    let creator = shown.text_at("creator_user_id"@)->0;
    let op = invitations::redeem_op(id, redeemer);
    assert(model::asked(workflow, replies, 2) == Some(Ask::Store(op)));
    assert(model::served_at(workflow, replies, store, 2));
    let after = model::executed(begun, op).0;
    assert(model::store_at(workflow, replies, store, 3) == after);
    marking_ends_active(begun, secret, redeemer, id, shown);
    assert forall|place: int| 3 <= place < replies.len() implies (#[trigger] model::asked(
        workflow,
        replies,
        place,
    ) matches Some(ask) ==> frames::game_ask(ask) || ask == Ask::Store(Op::commit())) by {
        let cut = Trace { replies: replies.take(place), at: 0 };
        assert(cut.replies[0] == replies[0]);
        assert(cut.replies[1] == replies[1]);
        assert(cut.replies[2] == replies[2]);
        frames::classic_creation_keeps(
            cut.next().next().next(),
            seq![creator, redeemer],
            0,
            now,
            seed,
            "redeem:"@ + id,
        );
    }
    frames::other_tables();
    frames::table_stays(workflow, replies, store, 3, replies.len() as int, "invitations"@);
}

/// An invitation starts at most one game: after one start every other start with its secret is
/// refused, whoever tries.
pub proof fn invitations_start_one_game(
    secret: Seq<char>,
    redeemer: Seq<char>,
    now: Timestamp,
    seed: u64,
    replies: Seq<Reply>,
    store: Store,
    later_redeemer: Seq<char>,
    later: Timestamp,
    later_seed: u64,
    later_replies: Seq<Reply>,
)
    requires
        unique_text(store.rows("invitations"@), "token_hash"@),
        model::served(starting_from_invitation(secret, redeemer, now, seed), replies, store),
        model::ending(starting_from_invitation(secret, redeemer, now, seed), replies) is Done,
        model::served(
            starting_from_invitation(secret, later_redeemer, later, later_seed),
            later_replies,
            model::store_after(
                starting_from_invitation(secret, redeemer, now, seed),
                replies,
                store,
            ),
        ),
        later_replies.len() > 1,
    ensures
        model::ending(
            starting_from_invitation(secret, later_redeemer, later, later_seed),
            later_replies,
        ) == Outcome::<GameId, InvitationError>::Fail(InvitationError::Invalid),
{
    starting_ends_active(secret, redeemer, now, seed, replies, store);
    only_active_invitations_start_games(
        secret,
        later_redeemer,
        later,
        later_seed,
        later_replies,
        model::store_after(starting_from_invitation(secret, redeemer, now, seed), replies, store),
    );
}

/// An invitation is redeemed at most once.
pub proof fn invitations_are_redeemed_once(
    secret: Seq<char>,
    redeemer: Seq<char>,
    now: Timestamp,
    replies: Seq<Reply>,
    store: Store,
    later_redeemer: Seq<char>,
    later: Timestamp,
    later_replies: Seq<Reply>,
)
    requires
        unique_text(store.rows("invitations"@), "token_hash"@),
        model::served(redeeming(secret, redeemer, now), replies, store),
        model::ending(redeeming(secret, redeemer, now), replies) is Done,
        model::served(
            redeeming(secret, later_redeemer, later),
            later_replies,
            model::store_after(redeeming(secret, redeemer, now), replies, store),
        ),
        later_replies.len() > 1,
    ensures
        model::ending(redeeming(secret, later_redeemer, later), later_replies) == Outcome::<
            Seq<char>,
            InvitationError,
        >::Fail(InvitationError::Invalid),
{
    redeeming_ends_active(secret, redeemer, now, replies, store);
    only_active_invitations_are_redeemed(
        secret,
        later_redeemer,
        later,
        later_replies,
        model::store_after(redeeming(secret, redeemer, now), replies, store),
    );
}

} // verus!
