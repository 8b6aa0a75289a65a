//! What a workflow leaves behind that fails inside its transaction: the store can still return to
//! what it held before, or has returned already.
//!
//! Every law speaks of workflows whose replies a store of [`crate::model`] gives.
use crate::account_laws;
use crate::accounts::AccountError;
use crate::avatars::ImageView;
use crate::challenges::{self, ChallengeError, CreationView, GameVisibilitySettings};
use crate::exactly_once;
use crate::external_identities::{self, ExternalIdentityError, IdentityView};
use crate::frames;
use crate::game::{self, GameId, Span, Timestamp};
use crate::identity_laws;
use crate::ids;
use crate::invitations::{self, InvitationError};
use crate::lobbies::{self, FirstView, GameCreationPolicy, LobbyError, SettingsView};
use crate::lobby_laws;
use crate::model::{self, Store, Workflow};
use crate::profiles::{self, ProfileError};
use crate::read_back;
use crate::script::{self, Ask, Outcome, Reply, Run, Trace};
use crate::steady;
use crate::store::{Op, Row, Verb};
use crate::transactions;
use vstd::prelude::*;

verus! {

/// Whether nothing was lost: a rollback brings the tables of `before` back, or they are there.
pub open spec fn undone(before: Store, after: Store) -> bool {
    after.saved == Some(before.tables) || after.tables == before.tables
}

/// Whether a run that waits on the first `count` replies, and ends as `full` on all of them, asks
/// for a commit only where it does not fail, and for a rollback only as the last thing.
pub open spec fn guarded<T, E>(full: Run<T, E>, cut: Run<T, E>, count: int) -> bool {
    cut.outcome matches Outcome::Wait(ask) ==> {
        ||| transactions::plain(ask)
        ||| ask == Ask::Store(Op::commit()) && !(full.outcome is Fail)
        ||| ask == Ask::Store(Op::rollback()) && (full.outcome is Fail ==> full.trace.at == count
            + 1)
    }
}

/// Whether a workflow on its first `count` replies depends on them alone and is guarded.
pub open spec fn careful_at<T, E>(
    workflow: Workflow<T, E>,
    replies: Seq<Reply>,
    count: int,
) -> bool {
    let full = workflow(Trace { replies, at: 0 });
    let cut = workflow(Trace { replies: replies.take(count), at: 0 });
    &&& steady::steady(full, cut, replies, 0, count)
    &&& guarded(full, cut, count)
}

/// Whether a workflow is careful once it has begun its transaction.
pub open spec fn careful<T, E>(workflow: Workflow<T, E>, replies: Seq<Reply>) -> bool {
    forall|count: int|
        1 <= count <= replies.len() ==> #[trigger] careful_at(workflow, replies, count)
}

/// While a careful workflow that will fail goes on, its transaction can be undone.
proof fn work_can_be_undone<T, E>(
    workflow: Workflow<T, E>,
    replies: Seq<Reply>,
    store: Store,
    place: int,
)
    requires
        model::asked(workflow, replies, 0) == Some(Ask::Store(Op::begin())),
        careful(workflow, replies),
        model::served(workflow, replies, store),
        model::ending(workflow, replies) is Fail,
        1 <= place <= replies.len(),
    ensures
        ({
            let now = model::store_at(workflow, replies, store, place);
            ||| now.saved == Some(store.tables)
            ||| place == replies.len() && now.tables == store.tables
        }),
    decreases place,
{
    assert(model::served_at(workflow, replies, store, 0));
    assert(model::store_at(workflow, replies, store, 0) == store);
    if place > 1 {
        work_can_be_undone(workflow, replies, store, place - 1);
        assert(careful_at(workflow, replies, place - 1));
        assert(model::served_at(workflow, replies, store, place - 1));
        let before = model::store_at(workflow, replies, store, place - 1);
        let full = workflow(Trace { replies, at: 0 });
        let cut = workflow(Trace { replies: replies.take(place - 1), at: 0 });
        assert(guarded(full, cut, place - 1));
        if model::asked(workflow, replies, place - 1) == Some(Ask::Store(Op::rollback())) {
            if place < replies.len() {
                assert(careful_at(workflow, replies, place));
                assert(model::served_at(workflow, replies, store, place));
            }
        }
    }
}

/// A careful workflow that fails inside its transaction leaves nothing that cannot be undone.
pub proof fn failures_can_be_undone<T, E>(
    workflow: Workflow<T, E>,
    replies: Seq<Reply>,
    store: Store,
)
    requires
        replies.len() > 0 ==> careful(workflow, replies) && model::asked(workflow, replies, 0)
            == Some(Ask::Store(Op::begin())),
        model::served(workflow, replies, store),
        model::ending(workflow, replies) is Fail,
    ensures
        undone(store, model::store_after(workflow, replies, store)),
{
    if replies.len() > 0 {
        work_can_be_undone(workflow, replies, store, replies.len() as int);
    }
}

/// Creating a classic game reads its replies in order and begins and ends no transaction.
proof fn classic_creation_is_steady(
    replies: Seq<Reply>,
    at: int,
    count: int,
    users: Seq<Seq<char>>,
    first: int,
    now: Timestamp,
    seed: u64,
    key: Seq<char>,
)
    requires
        0 <= at,
        0 <= count <= replies.len(),
    ensures
        ({
            let full = challenges::create_classic_game_run(
                Trace { replies, at },
                users,
                first,
                now,
                seed,
                key,
            );
            let cut = challenges::create_classic_game_run(
                Trace { replies: replies.take(count), at },
                users,
                first,
                now,
                seed,
                key,
            );
            &&& steady::steady(full, cut, replies, at, count)
            &&& frames::keeps_to_games(cut)
        }),
{
    let cut = Trace { replies: replies.take(count), at };
    if at < count {
        assert(replies.take(count)[at] == replies[at]);
    }
    if at < replies.len() {
        if let Some(rules) = script::reply_rules(replies[at]) {
            let creation = CreationView {
                users,
                first,
                rules,
                now,
                seed,
                key,
                visibility: GameVisibilitySettings::hidden(),
            };
            steady::creating_is_steady(replies, at + 1, count, creation);
        }
    }
    frames::classic_creation_keeps(cut, users, first, now, seed, key);
}

proof fn accepting_is_careful(
    challenge_id: Seq<char>,
    challenged: Seq<char>,
    now: Timestamp,
    seed: u64,
    replies: Seq<Reply>,
    count: int,
)
    requires
        1 <= count <= replies.len(),
    ensures
        careful_at(exactly_once::accepting(challenge_id, challenged, now, seed), replies, count),
{
    let cut = replies.take(count);
    assert forall|i: int| 0 <= i < count implies cut[i] == #[trigger] replies[i] by {}
    assert(cut[0] == replies[0]);
    if 1 < count {
        assert(cut[1] == replies[1]);
    }
    if 2 < count {
        assert(cut[2] == replies[2]);
    }
    if 3 < count {
        assert(cut[3] == replies[3]);
    }
    if replies.len() > 1 {
        if let Reply::Rows(rows) = replies[1] {
            if let Some(challenger) = rows@[0].text_at("challenger_user_id"@) {
                let users = seq![challenger, challenged];
                let key = "accept:"@ + challenge_id;
                classic_creation_is_steady(replies, 3, count, users, 0, now, seed, key);
                let full = challenges::create_classic_game_run(
                    Trace { replies, at: 3 },
                    users,
                    0,
                    now,
                    seed,
                    key,
                );
                let end = full.trace.at;
                if 0 <= end < count {
                    assert(cut[end] == replies[end]);
                }
            }
        }
    }
}

/// An acceptance that fails leaves nothing that cannot be undone: the challenge stays pending and
/// no part of a game stays behind.
pub proof fn failed_acceptances_can_be_undone(
    challenge_id: Seq<char>,
    challenged: Seq<char>,
    now: Timestamp,
    seed: u64,
    replies: Seq<Reply>,
    store: Store,
    error: ChallengeError,
)
    requires
        model::served(exactly_once::accepting(challenge_id, challenged, now, seed), replies, store),
        model::ending(exactly_once::accepting(challenge_id, challenged, now, seed), replies)
            == Outcome::<GameId, ChallengeError>::Fail(error),
    ensures
        undone(
            store,
            model::store_after(
                exactly_once::accepting(challenge_id, challenged, now, seed),
                replies,
                store,
            ),
        ),
{
    let workflow = exactly_once::accepting(challenge_id, challenged, now, seed);
    assert forall|count: int| 1 <= count <= replies.len() implies #[trigger] careful_at(
        workflow,
        replies,
        count,
    ) by {
        accepting_is_careful(challenge_id, challenged, now, seed, replies, count);
    }
    failures_can_be_undone(workflow, replies, store);
}

/// A removal of an avatar that fails leaves nothing that cannot be undone.
pub proof fn failed_removals_can_be_undone(
    user_id: Seq<char>,
    now: Timestamp,
    replies: Seq<Reply>,
    store: Store,
    error: ProfileError,
)
    requires
        model::served(account_laws::removing(user_id, now), replies, store),
        model::ending(account_laws::removing(user_id, now), replies) == Outcome::<
            (),
            ProfileError,
        >::Fail(error),
    ensures
        undone(store, model::store_after(account_laws::removing(user_id, now), replies, store)),
{
    let workflow = account_laws::removing(user_id, now);
    assert forall|count: int| 1 <= count <= replies.len() implies #[trigger] careful_at(
        workflow,
        replies,
        count,
    ) by {
        let cut = replies.take(count);
        assert(cut[0] == replies[0]);
        if 1 < count {
            assert(cut[1] == replies[1]);
        }
        if 2 < count {
            assert(cut[2] == replies[2]);
        }
        if 3 < count {
            assert(cut[3] == replies[3]);
        }
    }
    failures_can_be_undone(workflow, replies, store);
}

/// A registration that fails has written nothing.
pub proof fn failed_registrations_change_nothing(
    username: Seq<char>,
    password: Seq<char>,
    now: Timestamp,
    replies: Seq<Reply>,
    store: Store,
    error: AccountError,
)
    requires
        model::served(read_back::registering(username, password, now), replies, store),
        model::ending(read_back::registering(username, password, now), replies) == Outcome::<
            Seq<char>,
            AccountError,
        >::Fail(error),
    ensures
        model::store_after(read_back::registering(username, password, now), replies, store)
            == store,
{
    let workflow = read_back::registering(username, password, now);
    assert(replies.take(replies.len() as int) =~= replies);
    assert forall|place: int| 0 <= place < replies.len() implies ((#[trigger] model::asked(
        workflow,
        replies,
        place,
    )) matches Some(Ask::Store(op)) ==> op.verb == Verb::Select) by {
        let cut = replies.take(place);
        if 0 < place {
            assert(cut[0] == replies[0]);
        }
        if 1 < place {
            assert(cut[1] == replies[1]);
        }
        if 2 < place {
            assert(cut[2] == replies[2]);
        }
    }
    frames::store_stays(workflow, replies, store, replies.len() as int);
}

/// Whether a part that begins at `at`, if the first `count` replies reach that far, depends on them
/// alone and is guarded.
pub open spec fn part_is_careful<T, E>(
    full: Run<T, E>,
    cut: Run<T, E>,
    replies: Seq<Reply>,
    at: int,
    count: int,
) -> bool {
    &&& full.trace.replies == replies
    &&& full.trace.at >= at
    &&& at <= count ==> steady::steady(full, cut, replies, at, count) && guarded(full, cut, count)
}

/// A part that begins and ends no transaction, with a careful part behind it, is careful.
proof fn chain_is_careful<T, U, E>(
    full: Run<T, E>,
    cut: Run<T, E>,
    rest: spec_fn(T, Trace) -> Run<U, E>,
    replies: Seq<Reply>,
    at: int,
    count: int,
)
    requires
        0 <= at,
        0 <= count <= replies.len(),
        steady::steady(full, cut, replies, at, count),
        cut.outcome matches Outcome::Wait(ask) ==> transactions::plain(ask),
        full.outcome matches Outcome::Done(value) ==> part_is_careful(
            rest(value, full.trace),
            rest(value, Trace { replies: replies.take(count), at: full.trace.at }),
            replies,
            full.trace.at,
            count,
        ),
    ensures
        part_is_careful(
            script::chain(full, rest),
            script::chain(cut, rest),
            replies,
            at,
            count,
        ),
{
}

/// The last step of a change to a lobby is careful.
proof fn advance_is_careful<T>(
    replies: Seq<Reply>,
    at: int,
    count: int,
    changes: Op,
    lobby: Seq<char>,
    row: Row,
    now: Timestamp,
    result: T,
)
    requires
        0 <= at,
        0 <= count <= replies.len(),
        changes.verb == Verb::Update,
    ensures
        part_is_careful(
            lobbies::advance_run(Trace { replies, at }, changes, lobby, row, now, result),
            lobbies::advance_run(
                Trace { replies: replies.take(count), at },
                changes,
                lobby,
                row,
                now,
                result,
            ),
            replies,
            at,
            count,
        ),
{
    let cut = replies.take(count);
    if at < count {
        assert(cut[at] == replies[at]);
    }
    if at + 1 < count {
        assert(cut[at + 1] == replies[at + 1]);
    }
}

/// Reading the members of a lobby reads its reply in order and begins and ends no transaction.
proof fn members_are_steady(replies: Seq<Reply>, at: int, count: int, lobby: Seq<char>)
    requires
        0 <= at,
        0 <= count <= replies.len(),
    ensures
        ({
            let full = lobbies::members_run(Trace { replies, at }, lobby);
            let cut = lobbies::members_run(Trace { replies: replies.take(count), at }, lobby);
            &&& steady::steady(full, cut, replies, at, count)
            &&& cut.outcome matches Outcome::Wait(ask) ==> transactions::plain(ask)
            &&& full.outcome is Done ==> full.trace == (Trace { replies, at: at + 1 })
        }),
{
    if at < count {
        assert(replies.take(count)[at] == replies[at]);
    }
}

/// Taking a user into a lobby is careful.
proof fn admission_is_careful(
    replies: Seq<Reply>,
    at: int,
    count: int,
    row: Row,
    lobby: Seq<char>,
    user: Seq<char>,
    policy: GameCreationPolicy,
    now: Timestamp,
)
    requires
        0 <= at,
        0 <= count <= replies.len(),
    ensures
        part_is_careful(
            lobbies::admit_run(Trace { replies, at }, row, lobby, user, policy, now),
            lobbies::admit_run(
                Trace { replies: replies.take(count), at },
                row,
                lobby,
                user,
                policy,
                now,
            ),
            replies,
            at,
            count,
        ),
{
    members_are_steady(replies, at, count, lobby);
    if at + 1 < count {
        assert(replies.take(count)[at + 1] == replies[at + 1]);
    }
    advance_is_careful(
        replies,
        at + 2,
        count,
        Op::update("game_lobbies"@),
        lobby,
        row,
        now,
        lobby,
    );
}

/// A join by secret that fails leaves nothing that cannot be undone.
pub proof fn failed_joins_can_be_undone(
    secret: Seq<char>,
    user: Seq<char>,
    policy: GameCreationPolicy,
    now: Timestamp,
    replies: Seq<Reply>,
    store: Store,
    error: LobbyError,
)
    requires
        model::served(lobby_laws::joining(secret, user, policy, now), replies, store),
        model::ending(lobby_laws::joining(secret, user, policy, now), replies) == Outcome::<
            Seq<char>,
            LobbyError,
        >::Fail(error),
    ensures
        undone(
            store,
            model::store_after(lobby_laws::joining(secret, user, policy, now), replies, store),
        ),
{
    let workflow = lobby_laws::joining(secret, user, policy, now);
    assert forall|count: int| 1 <= count <= replies.len() implies #[trigger] careful_at(
        workflow,
        replies,
        count,
    ) by {
        let cut = replies.take(count);
        assert(cut[0] == replies[0]);
        if 1 < count {
            assert(cut[1] == replies[1]);
        }
        if replies.len() > 1 {
            if let Reply::Rows(rows) = replies[1] {
                if let Some(lobby) = rows@[0].text_at("lobby_id"@) {
                    admission_is_careful(replies, 2, count, rows@[0], lobby, user, policy, now);
                }
            }
        }
    }
    failures_can_be_undone(workflow, replies, store);
}

/// Changing an open lobby.
pub open spec fn changing<T>(
    lobby: Seq<char>,
    change: spec_fn(Row, Trace) -> Run<T, LobbyError>,
) -> Workflow<T, LobbyError> {
    |trace: Trace| lobbies::open_lobby_run(trace, lobby, change)
}

/// Whether a change to an open lobby is careful on its first `count` replies.
spec fn change_is_careful<T>(
    change: spec_fn(Row, Trace) -> Run<T, LobbyError>,
    row: Row,
    replies: Seq<Reply>,
    count: int,
) -> bool {
    part_is_careful(
        change(row, Trace { replies, at: 2 }),
        change(row, Trace { replies: replies.take(count), at: 2 }),
        replies,
        2,
        count,
    )
}

/// A careful change to an open lobby that fails leaves nothing that cannot be undone.
proof fn failed_changes_can_be_undone<T>(
    lobby: Seq<char>,
    change: spec_fn(Row, Trace) -> Run<T, LobbyError>,
    replies: Seq<Reply>,
    store: Store,
)
    requires
        forall|row: Row, count: int|
            1 <= count <= replies.len() ==> #[trigger] change_is_careful(
                change,
                row,
                replies,
                count,
            ),
        model::served(changing(lobby, change), replies, store),
        model::ending(changing(lobby, change), replies) is Fail,
    ensures
        undone(store, model::store_after(changing(lobby, change), replies, store)),
{
    let workflow = changing(lobby, change);
    assert forall|count: int| 1 <= count <= replies.len() implies #[trigger] careful_at(
        workflow,
        replies,
        count,
    ) by {
        let cut = replies.take(count);
        assert(cut[0] == replies[0]);
        if 1 < count {
            assert(cut[1] == replies[1]);
        }
        if replies.len() > 1 {
            if let Reply::Rows(rows) = replies[1] {
                assert(change_is_careful(change, rows@[0], replies, count));
            }
        }
    }
    failures_can_be_undone(workflow, replies, store);
}

/// What a join by identity does with the open lobby.
pub open spec fn admission(
    lobby: Seq<char>,
    user: Seq<char>,
    policy: GameCreationPolicy,
    now: Timestamp,
) -> spec_fn(Row, Trace) -> Run<Seq<char>, LobbyError> {
    |row: Row, trace: Trace| lobbies::admit_run(trace, row, lobby, user, policy, now)
}

/// A join by identity that fails leaves nothing that cannot be undone.
pub proof fn failed_joins_by_id_can_be_undone(
    lobby: Seq<char>,
    user: Seq<char>,
    policy: GameCreationPolicy,
    now: Timestamp,
    replies: Seq<Reply>,
    store: Store,
    error: LobbyError,
)
    requires
        model::served(changing(lobby, admission(lobby, user, policy, now)), replies, store),
        model::ending(changing(lobby, admission(lobby, user, policy, now)), replies) == Outcome::<
            Seq<char>,
            LobbyError,
        >::Fail(error),
    ensures
        undone(
            store,
            model::store_after(
                changing(lobby, admission(lobby, user, policy, now)),
                replies,
                store,
            ),
        ),
{
    let change = admission(lobby, user, policy, now);
    assert forall|row: Row, count: int| 1 <= count <= replies.len() implies #[trigger]
        change_is_careful(change, row, replies, count) by {
        admission_is_careful(replies, 2, count, row, lobby, user, policy, now);
    }
    failed_changes_can_be_undone(lobby, change, replies, store);
}

/// Cancelling a lobby.
pub open spec fn cancelling(lobby: Seq<char>, creator: Seq<char>, now: Timestamp) -> Workflow<
    (),
    LobbyError,
> {
    |trace: Trace| lobbies::cancel_lobby_run(trace, lobby, creator, now)
}

/// A cancellation that fails leaves nothing that cannot be undone.
pub proof fn failed_cancellations_can_be_undone(
    lobby: Seq<char>,
    creator: Seq<char>,
    now: Timestamp,
    replies: Seq<Reply>,
    store: Store,
    error: LobbyError,
)
    requires
        model::served(cancelling(lobby, creator, now), replies, store),
        model::ending(cancelling(lobby, creator, now), replies) == Outcome::<(), LobbyError>::Fail(
            error,
        ),
    ensures
        undone(store, model::store_after(cancelling(lobby, creator, now), replies, store)),
{
    let changes = Op::update("game_lobbies"@).text("status"@, "CANCELLED"@);
    let change = |row: Row, trace: Trace|
        match lobbies::creator_check(row, creator) {
            Some(error) => script::fail(trace, error),
            None => lobbies::advance_run(trace, changes, lobby, row, now, ()),
        };
    assert(cancelling(lobby, creator, now) =~= changing(lobby, change));
    assert forall|row: Row, count: int| 1 <= count <= replies.len() implies #[trigger]
        change_is_careful(change, row, replies, count) by {
        advance_is_careful(replies, 2, count, changes, lobby, row, now, ());
    }
    failed_changes_can_be_undone(lobby, change, replies, store);
}

/// Changing the settings of a lobby.
pub open spec fn setting(
    lobby: Seq<char>,
    creator: Seq<char>,
    settings: SettingsView,
    policy: GameCreationPolicy,
    now: Timestamp,
) -> Workflow<(), LobbyError> {
    |trace: Trace|
        lobbies::update_settings_run(trace, lobby, creator, settings, policy, now)
}

/// A change of settings is careful.
proof fn setting_is_careful(
    replies: Seq<Reply>,
    at: int,
    count: int,
    row: Row,
    lobby: Seq<char>,
    settings: SettingsView,
    now: Timestamp,
)
    requires
        0 <= at,
        0 <= count <= replies.len(),
    ensures
        part_is_careful(
            lobbies::change_settings_run(Trace { replies, at }, row, lobby, settings, now),
            lobbies::change_settings_run(
                Trace { replies: replies.take(count), at },
                row,
                lobby,
                settings,
                now,
            ),
            replies,
            at,
            count,
        ),
{
    advance_is_careful(
        replies,
        at,
        count,
        lobbies::settings_changes(settings),
        lobby,
        row,
        now,
        (),
    );
}

/// A change of settings that fails leaves nothing that cannot be undone.
pub proof fn failed_settings_can_be_undone(
    lobby: Seq<char>,
    creator: Seq<char>,
    settings: SettingsView,
    policy: GameCreationPolicy,
    now: Timestamp,
    replies: Seq<Reply>,
    store: Store,
    error: LobbyError,
)
    requires
        model::served(setting(lobby, creator, settings, policy, now), replies, store),
        model::ending(setting(lobby, creator, settings, policy, now), replies) == Outcome::<
            (),
            LobbyError,
        >::Fail(error),
    ensures
        undone(
            store,
            model::store_after(setting(lobby, creator, settings, policy, now), replies, store),
        ),
{
    let workflow = setting(lobby, creator, settings, policy, now);
    if policy.admits(settings) {
        let change = |row: Row, trace: Trace|
            match lobbies::creator_check(row, creator) {
                Some(error) => script::fail(trace, error),
                None => match settings.first_player {
                    FirstView::Chosen(chosen) => script::chain(
                        lobbies::members_run(trace, lobby),
                        |members: Seq<(Seq<char>, usize)>, trace: Trace|
                            if lobbies::member_index(members, chosen) is None {
                                script::fail(trace, LobbyError::NotReady)
                            } else {
                                lobbies::change_settings_run(trace, row, lobby, settings, now)
                            },
                    ),
                    _ => lobbies::change_settings_run(trace, row, lobby, settings, now),
                },
            };
        assert(workflow =~= changing(lobby, change));
        assert forall|row: Row, count: int| 1 <= count <= replies.len() implies #[trigger]
            change_is_careful(change, row, replies, count) by {
            members_are_steady(replies, 2, count, lobby);
            setting_is_careful(replies, 2, count, row, lobby, settings, now);
            setting_is_careful(replies, 3, count, row, lobby, settings, now);
        }
        failed_changes_can_be_undone(lobby, change, replies, store);
    } else if replies.len() > 0 {
        assert(model::served_at(workflow, replies, store, 0));
    }
}

/// Moving members begins and ends no transaction.
proof fn moving_is_plain(
    trace: Trace,
    lobby: Seq<char>,
    members: Seq<(Seq<char>, usize)>,
    aside: bool,
    index: int,
)
    ensures
        lobbies::move_members_run(trace, lobby, members, aside, index).outcome matches Outcome::Wait(
            ask,
        ) ==> transactions::plain(ask),
    decreases members.len() - index,
{
    if index < members.len() {
        moving_is_plain(trace.next(), lobby, members, aside, index + 1);
    }
}

/// Closing the gap in the seats behind the members that were read.
spec fn closing(
    trace: Trace,
    lobby: Seq<char>,
    row: Row,
    now: Timestamp,
    members: Seq<(Seq<char>, usize)>,
) -> Run<(), LobbyError> {
    script::chain(
        lobbies::move_members_run(trace, lobby, members, true, 0),
        |moved: (), trace: Trace|
            script::chain(
                lobbies::move_members_run(trace, lobby, members, false, 0),
                |moved: (), trace: Trace|
                    lobbies::advance_run(
                        trace,
                        Op::update("game_lobbies"@),
                        lobby,
                        row,
                        now,
                        (),
                    ),
            ),
    )
}

/// The second pass over the seats is careful.
proof fn second_pass_is_careful(
    replies: Seq<Reply>,
    at: int,
    count: int,
    lobby: Seq<char>,
    row: Row,
    now: Timestamp,
    members: Seq<(Seq<char>, usize)>,
    rest: spec_fn((), Trace) -> Run<(), LobbyError>,
)
    requires
        0 <= at,
        0 <= count <= replies.len(),
        forall|moved: (), trace: Trace| #[trigger]
            rest(moved, trace) == lobbies::advance_run(
                trace,
                Op::update("game_lobbies"@),
                lobby,
                row,
                now,
                (),
            ),
    ensures
        part_is_careful(
            script::chain(
                lobbies::move_members_run(Trace { replies, at }, lobby, members, false, 0),
                rest,
            ),
            script::chain(
                lobbies::move_members_run(
                    Trace { replies: replies.take(count), at },
                    lobby,
                    members,
                    false,
                    0,
                ),
                rest,
            ),
            replies,
            at,
            count,
        ),
{
    let full = lobbies::move_members_run(Trace { replies, at }, lobby, members, false, 0);
    let short = Trace { replies: replies.take(count), at };
    let cut = lobbies::move_members_run(short, lobby, members, false, 0);
    lobby_laws::moving_is_steady(replies, at, count, lobby, members, false, 0);
    moving_is_plain(short, lobby, members, false, 0);
    advance_is_careful(
        replies,
        full.trace.at,
        count,
        Op::update("game_lobbies"@),
        lobby,
        row,
        now,
        (),
    );
    chain_is_careful(full, cut, rest, replies, at, count);
}

/// Closing the gap is careful.
proof fn closing_is_careful(
    replies: Seq<Reply>,
    at: int,
    count: int,
    lobby: Seq<char>,
    row: Row,
    now: Timestamp,
    members: Seq<(Seq<char>, usize)>,
)
    requires
        0 <= at,
        0 <= count <= replies.len(),
    ensures
        part_is_careful(
            closing(Trace { replies, at }, lobby, row, now, members),
            closing(Trace { replies: replies.take(count), at }, lobby, row, now, members),
            replies,
            at,
            count,
        ),
{
    let full = lobbies::move_members_run(Trace { replies, at }, lobby, members, true, 0);
    let short = Trace { replies: replies.take(count), at };
    let cut = lobbies::move_members_run(short, lobby, members, true, 0);
    let last = |moved: (), trace: Trace|
        lobbies::advance_run(trace, Op::update("game_lobbies"@), lobby, row, now, ());
    let rest = |moved: (), trace: Trace|
        script::chain(lobbies::move_members_run(trace, lobby, members, false, 0), last);
    lobby_laws::moving_is_steady(replies, at, count, lobby, members, true, 0);
    moving_is_plain(short, lobby, members, true, 0);
    second_pass_is_careful(replies, full.trace.at, count, lobby, row, now, members, last);
    chain_is_careful(full, cut, rest, replies, at, count);
    assert(closing(Trace { replies, at }, lobby, row, now, members) == script::chain(full, rest));
    assert(closing(short, lobby, row, now, members) == script::chain(cut, rest));
}

/// Closing the gap in the seats, from reading the members on, is careful.
proof fn compacting_is_careful(
    replies: Seq<Reply>,
    at: int,
    count: int,
    lobby: Seq<char>,
    row: Row,
    now: Timestamp,
)
    requires
        0 <= at,
        0 <= count <= replies.len(),
    ensures
        part_is_careful(
            lobbies::compact_run(Trace { replies, at }, lobby, row, now),
            lobbies::compact_run(Trace { replies: replies.take(count), at }, lobby, row, now),
            replies,
            at,
            count,
        ),
{
    let full = lobbies::members_run(Trace { replies, at }, lobby);
    let short = Trace { replies: replies.take(count), at };
    let cut = lobbies::members_run(short, lobby);
    let rest = |members: Seq<(Seq<char>, usize)>, trace: Trace|
        closing(trace, lobby, row, now, members);
    members_are_steady(replies, at, count, lobby);
    if let Outcome::Done(members) = full.outcome {
        closing_is_careful(replies, at + 1, count, lobby, row, now, members);
    }
    chain_is_careful(full, cut, rest, replies, at, count);
    assert(lobbies::compact_run(Trace { replies, at }, lobby, row, now) == script::chain(
        full,
        rest,
    ));
    assert(lobbies::compact_run(short, lobby, row, now) == script::chain(cut, rest));
}

/// A departure that fails leaves nothing that cannot be undone: no seat stays moved.
pub proof fn failed_departures_can_be_undone(
    lobby: Seq<char>,
    user: Seq<char>,
    now: Timestamp,
    replies: Seq<Reply>,
    store: Store,
    error: LobbyError,
)
    requires
        model::served(lobby_laws::leaving(lobby, user, now), replies, store),
        model::ending(lobby_laws::leaving(lobby, user, now), replies) == Outcome::<
            (),
            LobbyError,
        >::Fail(error),
    ensures
        undone(store, model::store_after(lobby_laws::leaving(lobby, user, now), replies, store)),
{
    let delete = Op::delete("game_lobby_members"@).where_text("lobby_id"@, lobby).where_text(
        "user_id"@,
        user,
    );
    let change = |row: Row, trace: Trace|
        match row.text_at("creator_user_id"@) {
            None => script::fail(trace, LobbyError::Invalid),
            Some(creator) => if creator == user {
                script::fail(trace, LobbyError::Unauthorized)
            } else {
                script::query(
                    trace,
                    delete,
                    |removed: Seq<Row>, trace: Trace|
                        if removed.len() != 1 {
                            script::fail(trace, LobbyError::Unavailable)
                        } else {
                            lobbies::compact_run(trace, lobby, row, now)
                        },
                )
            },
        };
    assert(lobby_laws::leaving(lobby, user, now) =~= changing(lobby, change));
    assert forall|row: Row, count: int| 1 <= count <= replies.len() implies #[trigger]
        change_is_careful(change, row, replies, count) by {
        if 2 < count {
            assert(replies.take(count)[2] == replies[2]);
        }
        compacting_is_careful(replies, 3, count, lobby, row, now);
    }
    failed_changes_can_be_undone(lobby, change, replies, store);
}

/// Marking a lobby started is careful.
proof fn marking_is_careful(
    replies: Seq<Reply>,
    at: int,
    count: int,
    row: Row,
    lobby: Seq<char>,
    game: GameId,
    now: Timestamp,
)
    requires
        0 <= at,
        0 <= count <= replies.len(),
    ensures
        part_is_careful(
            lobbies::finish_start_run(Trace { replies, at }, row, lobby, game, now),
            lobbies::finish_start_run(
                Trace { replies: replies.take(count), at },
                row,
                lobby,
                game,
                now,
            ),
            replies,
            at,
            count,
        ),
{
    let cut = replies.take(count);
    if at < count {
        assert(cut[at] == replies[at]);
    }
    if at + 1 < count {
        assert(cut[at + 1] == replies[at + 1]);
    }
}

/// Creating the game of a lobby and marking the lobby.
spec fn creating_then_marking(
    trace: Trace,
    creation: CreationView,
    row: Row,
    lobby: Seq<char>,
    now: Timestamp,
) -> Run<GameId, LobbyError> {
    script::chain(
        script::lift(
            challenges::create_game_run(trace, creation),
            |error: ChallengeError| LobbyError::GameCreation(error),
        ),
        |game: GameId, trace: Trace| lobbies::finish_start_run(trace, row, lobby, game, now),
    )
}

/// Creating the game of a lobby and marking the lobby is careful.
proof fn creation_is_careful(
    replies: Seq<Reply>,
    at: int,
    count: int,
    creation: CreationView,
    row: Row,
    lobby: Seq<char>,
    now: Timestamp,
)
    requires
        0 <= at,
        0 <= count <= replies.len(),
    ensures
        part_is_careful(
            creating_then_marking(Trace { replies, at }, creation, row, lobby, now),
            creating_then_marking(
                Trace { replies: replies.take(count), at },
                creation,
                row,
                lobby,
                now,
            ),
            replies,
            at,
            count,
        ),
{
    let short = Trace { replies: replies.take(count), at };
    let wrap = |error: ChallengeError| LobbyError::GameCreation(error);
    let made = challenges::create_game_run(Trace { replies, at }, creation);
    let full = script::lift(made, wrap);
    let cut = script::lift(challenges::create_game_run(short, creation), wrap);
    let rest = |game: GameId, trace: Trace|
        lobbies::finish_start_run(trace, row, lobby, game, now);
    steady::creating_is_steady(replies, at, count, creation);
    frames::creation_keeps(short, creation);
    if let Outcome::Done(game) = made.outcome {
        marking_is_careful(replies, made.trace.at, count, row, lobby, game, now);
    }
    chain_is_careful(full, cut, rest, replies, at, count);
}

/// Launching a lobby's game is careful.
proof fn launch_is_careful(
    replies: Seq<Reply>,
    at: int,
    count: int,
    row: Row,
    lobby: Seq<char>,
    settings: SettingsView,
    users: Seq<Seq<char>>,
    first: int,
    now: Timestamp,
    seed: u64,
)
    requires
        0 <= at,
        0 <= count <= replies.len(),
    ensures
        part_is_careful(
            lobbies::launch_run(
                Trace { replies, at },
                row,
                lobby,
                settings,
                users,
                first,
                now,
                seed,
            ),
            lobbies::launch_run(
                Trace { replies: replies.take(count), at },
                row,
                lobby,
                settings,
                users,
                first,
                now,
                seed,
            ),
            replies,
            at,
            count,
        ),
{
    if at < count {
        assert(replies.take(count)[at] == replies[at]);
    }
    if at < replies.len() {
        if let Some(rules) = script::reply_rules(replies[at]) {
            let creation = CreationView {
                users,
                first,
                rules,
                now,
                seed,
                key: "start-lobby:"@ + lobby,
                visibility: GameVisibilitySettings::hidden(),
            };
            creation_is_careful(replies, at + 1, count, creation, row, lobby, now);
        }
    }
}

/// Starting an open lobby is careful.
proof fn start_is_careful(
    replies: Seq<Reply>,
    at: int,
    count: int,
    row: Row,
    lobby: Seq<char>,
    creator: Seq<char>,
    policy: GameCreationPolicy,
    now: Timestamp,
    seed: u64,
)
    requires
        0 <= at,
        0 <= count <= replies.len(),
    ensures
        part_is_careful(
            lobbies::start_open_run(Trace { replies, at }, row, lobby, creator, policy, now, seed),
            lobbies::start_open_run(
                Trace { replies: replies.take(count), at },
                row,
                lobby,
                creator,
                policy,
                now,
                seed,
            ),
            replies,
            at,
            count,
        ),
{
    if let Some(settings) = lobbies::settings_of(row) {
        let short = Trace { replies: replies.take(count), at };
        let full = lobbies::members_run(Trace { replies, at }, lobby);
        let cut = lobbies::members_run(short, lobby);
        let rest = |members: Seq<(Seq<char>, usize)>, trace: Trace|
            if members.len() < 2 {
                script::fail(trace, LobbyError::NotReady)
            } else {
                match lobbies::first_index(settings.first_player, members, creator, seed) {
                    None => script::fail(trace, LobbyError::NotReady),
                    Some(first) => lobbies::launch_run(
                        trace,
                        row,
                        lobby,
                        settings,
                        lobbies::member_users(members),
                        first,
                        now,
                        seed,
                    ),
                }
            };
        members_are_steady(replies, at, count, lobby);
        if let Outcome::Done(members) = full.outcome {
            if let Some(first) = lobbies::first_index(
                settings.first_player,
                members,
                creator,
                seed,
            ) {
                launch_is_careful(
                    replies,
                    at + 1,
                    count,
                    row,
                    lobby,
                    settings,
                    lobbies::member_users(members),
                    first,
                    now,
                    seed,
                );
            }
        }
        chain_is_careful(full, cut, rest, replies, at, count);
    }
}

/// A start of a lobby that fails leaves nothing that cannot be undone: the lobby stays open and no
/// part of a game stays behind.
pub proof fn failed_starts_can_be_undone(
    lobby: Seq<char>,
    creator: Seq<char>,
    policy: GameCreationPolicy,
    now: Timestamp,
    seed: u64,
    replies: Seq<Reply>,
    store: Store,
    error: LobbyError,
)
    requires
        model::served(lobby_laws::starting(lobby, creator, policy, now, seed), replies, store),
        model::ending(lobby_laws::starting(lobby, creator, policy, now, seed), replies)
            == Outcome::<GameId, LobbyError>::Fail(error),
    ensures
        undone(
            store,
            model::store_after(
                lobby_laws::starting(lobby, creator, policy, now, seed),
                replies,
                store,
            ),
        ),
{
    let workflow = lobby_laws::starting(lobby, creator, policy, now, seed);
    assert forall|count: int| 1 <= count <= replies.len() implies #[trigger] careful_at(
        workflow,
        replies,
        count,
    ) by {
        let cut = replies.take(count);
        assert(cut[0] == replies[0]);
        if 1 < count {
            assert(cut[1] == replies[1]);
        }
        if replies.len() > 1 {
            if let Reply::Rows(rows) = replies[1] {
                start_is_careful(replies, 2, count, rows@[0], lobby, creator, policy, now, seed);
            }
        }
    }
    failures_can_be_undone(workflow, replies, store);
}

/// Marking an invitation redeemed reads its replies in order; it commits nothing, and rolls back
/// only as the last thing.
proof fn redemption_is_careful(
    secret: Seq<char>,
    redeemer: Seq<char>,
    now: Timestamp,
    replies: Seq<Reply>,
    count: int,
)
    requires
        1 <= count <= replies.len(),
    ensures
        ({
            let full = invitations::mark_redeemed_run(
                Trace { replies, at: 0 },
                secret,
                redeemer,
                now,
            );
            let cut = invitations::mark_redeemed_run(
                Trace { replies: replies.take(count), at: 0 },
                secret,
                redeemer,
                now,
            );
            &&& steady::steady(full, cut, replies, 0, count)
            &&& guarded(full, cut, count)
            &&& cut.outcome matches Outcome::Wait(ask) ==> transactions::plain(ask) || !(
            full.outcome is Done)
        }),
{
    let cut = replies.take(count);
    assert(cut[0] == replies[0]);
    if 1 < count {
        assert(cut[1] == replies[1]);
    }
    if 2 < count {
        assert(cut[2] == replies[2]);
    }
    if 3 < count {
        assert(cut[3] == replies[3]);
    }
}

/// A redemption that fails leaves nothing that cannot be undone.
pub proof fn failed_redemptions_can_be_undone(
    secret: Seq<char>,
    redeemer: Seq<char>,
    now: Timestamp,
    replies: Seq<Reply>,
    store: Store,
    error: InvitationError,
)
    requires
        model::served(exactly_once::redeeming(secret, redeemer, now), replies, store),
        model::ending(exactly_once::redeeming(secret, redeemer, now), replies) == Outcome::<
            Seq<char>,
            InvitationError,
        >::Fail(error),
    ensures
        undone(
            store,
            model::store_after(exactly_once::redeeming(secret, redeemer, now), replies, store),
        ),
{
    let workflow = exactly_once::redeeming(secret, redeemer, now);
    assert forall|count: int| 1 <= count <= replies.len() implies #[trigger] careful_at(
        workflow,
        replies,
        count,
    ) by {
        redemption_is_careful(secret, redeemer, now, replies, count);
        let marked = invitations::mark_redeemed_run(
            Trace { replies, at: 0 },
            secret,
            redeemer,
            now,
        );
        let end = marked.trace.at;
        if end < count {
            assert(replies.take(count)[end] == replies[end]);
        }
    }
    failures_can_be_undone(workflow, replies, store);
}

/// Starting the game of an invitation and committing.
spec fn creating_then_committing(
    trace: Trace,
    marked: (Seq<char>, Seq<char>),
    redeemer: Seq<char>,
    now: Timestamp,
    seed: u64,
) -> Run<GameId, InvitationError> {
    script::chain(
        script::lift(
            challenges::create_classic_game_run(
                trace,
                seq![marked.1, redeemer],
                0,
                now,
                seed,
                "redeem:"@ + marked.0,
            ),
            |error: ChallengeError| InvitationError::GameCreation(error),
        ),
        |game: GameId, trace: Trace|
            script::perform(trace, Op::commit(), |trace: Trace| script::done(trace, game)),
    )
}

/// Starting the game of an invitation is careful.
proof fn invited_creation_is_careful(
    replies: Seq<Reply>,
    at: int,
    count: int,
    marked: (Seq<char>, Seq<char>),
    redeemer: Seq<char>,
    now: Timestamp,
    seed: u64,
)
    requires
        0 <= at,
        0 <= count <= replies.len(),
    ensures
        part_is_careful(
            creating_then_committing(Trace { replies, at }, marked, redeemer, now, seed),
            creating_then_committing(
                Trace { replies: replies.take(count), at },
                marked,
                redeemer,
                now,
                seed,
            ),
            replies,
            at,
            count,
        ),
{
    let users = seq![marked.1, redeemer];
    let key = "redeem:"@ + marked.0;
    let short = Trace { replies: replies.take(count), at };
    let wrap = |error: ChallengeError| InvitationError::GameCreation(error);
    let made = challenges::create_classic_game_run(Trace { replies, at }, users, 0, now, seed, key);
    let full = script::lift(made, wrap);
    let cut = script::lift(
        challenges::create_classic_game_run(short, users, 0, now, seed, key),
        wrap,
    );
    let rest = |game: GameId, trace: Trace|
        script::perform(
            trace,
            Op::commit(),
            |trace: Trace| script::done::<GameId, InvitationError>(trace, game),
        );
    classic_creation_is_steady(replies, at, count, users, 0, now, seed, key);
    let end = made.trace.at;
    if 0 <= end < count {
        assert(replies.take(count)[end] == replies[end]);
    }
    chain_is_careful(full, cut, rest, replies, at, count);
}

/// A redemption with its game that fails leaves nothing that cannot be undone: the invitation
/// stays active and no part of a game stays behind.
pub proof fn failed_invited_starts_can_be_undone(
    secret: Seq<char>,
    redeemer: Seq<char>,
    now: Timestamp,
    seed: u64,
    replies: Seq<Reply>,
    store: Store,
    error: InvitationError,
)
    requires
        model::served(
            exactly_once::starting_from_invitation(secret, redeemer, now, seed),
            replies,
            store,
        ),
        model::ending(
            exactly_once::starting_from_invitation(secret, redeemer, now, seed),
            replies,
        ) == Outcome::<GameId, InvitationError>::Fail(error),
    ensures
        undone(
            store,
            model::store_after(
                exactly_once::starting_from_invitation(secret, redeemer, now, seed),
                replies,
                store,
            ),
        ),
{
    let workflow = exactly_once::starting_from_invitation(secret, redeemer, now, seed);
    assert forall|count: int| 1 <= count <= replies.len() implies #[trigger] careful_at(
        workflow,
        replies,
        count,
    ) by {
        redemption_is_careful(secret, redeemer, now, replies, count);
        let full = invitations::mark_redeemed_run(Trace { replies, at: 0 }, secret, redeemer, now);
        if let Outcome::Done(marked) = full.outcome {
            invited_creation_is_careful(
                replies,
                full.trace.at,
                count,
                marked,
                redeemer,
                now,
                seed,
            );
        }
    }
    failures_can_be_undone(workflow, replies, store);
}

/// Creating a lobby.
pub open spec fn creating_lobby(
    creator: Seq<char>,
    settings: SettingsView,
    policy: GameCreationPolicy,
    now: Timestamp,
    lifetime: Span,
) -> Workflow<(Seq<char>, Seq<char>), LobbyError> {
    |trace: Trace|
        lobbies::create_lobby_run(trace, creator, settings, policy, now, lifetime)
}

/// A creation of a lobby that fails asks for reads, and for a transaction only as the last thing.
proof fn trying_only_reads(
    replies: Seq<Reply>,
    at: int,
    count: int,
    creator: Seq<char>,
    settings: SettingsView,
    now_ms: i64,
    expires_ms: i64,
    attempts: int,
)
    requires
        0 <= at,
        0 <= count <= replies.len(),
    ensures
        ({
            let full = lobbies::try_lobby_run(
                Trace { replies, at },
                creator,
                settings,
                now_ms,
                expires_ms,
                attempts,
            );
            let cut = lobbies::try_lobby_run(
                Trace { replies: replies.take(count), at },
                creator,
                settings,
                now_ms,
                expires_ms,
                attempts,
            );
            &&& full.trace.at >= at
            &&& full.outcome is Fail && full.trace.at <= count ==> !(cut.outcome is Wait)
            &&& full.outcome is Fail ==> (cut.outcome matches Outcome::Wait(Ask::Store(op))
                ==> op.verb == Verb::Select || (op == Op::begin() && (at <= count ==> full.trace.at
                == count + 1)))
        }),
    decreases attempts,
{
    let cut = replies.take(count);
    if at < count {
        assert(cut[at] == replies[at]);
    }
    if at + 1 < count {
        assert(cut[at + 1] == replies[at + 1]);
    }
    if at + 2 < count {
        assert(cut[at + 2] == replies[at + 2]);
    }
    if attempts > 0 {
        trying_only_reads(
            replies,
            at + 2,
            count,
            creator,
            settings,
            now_ms,
            expires_ms,
            attempts - 1,
        );
    }
}

/// While a creation of a lobby that will fail goes on, nothing has been written.
proof fn nothing_is_written(
    creator: Seq<char>,
    settings: SettingsView,
    policy: GameCreationPolicy,
    now: Timestamp,
    lifetime: Span,
    replies: Seq<Reply>,
    store: Store,
    place: int,
)
    requires
        model::served(creating_lobby(creator, settings, policy, now, lifetime), replies, store),
        model::ending(creating_lobby(creator, settings, policy, now, lifetime), replies) is Fail,
        0 <= place <= replies.len(),
    ensures
        model::store_at(
            creating_lobby(creator, settings, policy, now, lifetime),
            replies,
            store,
            place,
        ).tables == store.tables,
    decreases place,
{
    let workflow = creating_lobby(creator, settings, policy, now, lifetime);
    if place > 0 {
        nothing_is_written(creator, settings, policy, now, lifetime, replies, store, place - 1);
        assert(model::served_at(workflow, replies, store, place - 1));
        if let Some(expires) = game::moment_after(now, lifetime) {
            if let (Some(now_ms), Some(expires_ms)) = (
                game::millis_at(now),
                game::millis_at(expires),
            ) {
                trying_only_reads(
                    replies,
                    0,
                    place - 1,
                    creator,
                    settings,
                    now_ms,
                    expires_ms,
                    4,
                );
            }
        }
    }
}

/// A creation of a lobby that fails leaves every table as it was.
pub proof fn failed_lobby_creations_change_nothing(
    creator: Seq<char>,
    settings: SettingsView,
    policy: GameCreationPolicy,
    now: Timestamp,
    lifetime: Span,
    replies: Seq<Reply>,
    store: Store,
    error: LobbyError,
)
    requires
        model::served(creating_lobby(creator, settings, policy, now, lifetime), replies, store),
        model::ending(creating_lobby(creator, settings, policy, now, lifetime), replies)
            == Outcome::<(Seq<char>, Seq<char>), LobbyError>::Fail(error),
    ensures
        model::store_after(
            creating_lobby(creator, settings, policy, now, lifetime),
            replies,
            store,
        ).tables == store.tables,
{
    nothing_is_written(
        creator,
        settings,
        policy,
        now,
        lifetime,
        replies,
        store,
        replies.len() as int,
    );
}

/// Storing a custom avatar.
pub open spec fn customizing(
    user_id: Seq<char>,
    normalized: Result<ImageView, ProfileError>,
    now: Timestamp,
) -> Workflow<ImageView, ProfileError> {
    |trace: Trace| profiles::set_custom_avatar_run(trace, user_id, normalized, now)
}

/// A custom avatar that is not stored changes nothing.
pub proof fn failed_avatars_change_nothing(
    user_id: Seq<char>,
    normalized: Result<ImageView, ProfileError>,
    now: Timestamp,
    replies: Seq<Reply>,
    store: Store,
    error: ProfileError,
)
    requires
        model::served(customizing(user_id, normalized, now), replies, store),
        model::ending(customizing(user_id, normalized, now), replies) == Outcome::<
            ImageView,
            ProfileError,
        >::Fail(error),
    ensures
        model::store_after(customizing(user_id, normalized, now), replies, store) == store,
{
    let workflow = customizing(user_id, normalized, now);
    if replies.len() > 0 {
        assert(model::served_at(workflow, replies, store, 0));
    }
}

/// A provider's avatar that fails to be stored changes nothing.
pub proof fn failed_provider_avatars_change_nothing(
    user_id: Seq<char>,
    normalized: Result<ImageView, ProfileError>,
    now: Timestamp,
    replies: Seq<Reply>,
    store: Store,
    error: ProfileError,
)
    requires
        model::served(account_laws::offering(user_id, normalized, now), replies, store),
        model::ending(account_laws::offering(user_id, normalized, now), replies)
            == Outcome::<Option<ImageView>, ProfileError>::Fail(error),
    ensures
        model::store_after(
            account_laws::offering(user_id, normalized, now),
            replies,
            store,
        ) == store,
{
    let workflow = account_laws::offering(user_id, normalized, now);
    if replies.len() > 1 {
        assert(replies.take(1)[0] == replies[0]);
        assert(model::served_at(workflow, replies, store, 1));
    }
    frames::store_stays(workflow, replies, store, replies.len() as int);
}

/// Looking for a free handle reads its replies in order and only reads the store.
proof fn handles_are_steady(
    replies: Seq<Reply>,
    at: int,
    count: int,
    name: Seq<char>,
    attempts: int,
)
    requires
        0 <= at,
        0 <= count <= replies.len(),
    ensures
        steady::steady(
            profiles::try_handle_run(Trace { replies, at }, name, attempts),
            profiles::try_handle_run(Trace { replies: replies.take(count), at }, name, attempts),
            replies,
            at,
            count,
        ),
        frames::only_reads(
            profiles::try_handle_run(Trace { replies: replies.take(count), at }, name, attempts),
        ),
    decreases attempts,
{
    let cut = replies.take(count);
    if at < count {
        assert(cut[at] == replies[at]);
    }
    if at + 1 < count {
        assert(cut[at + 1] == replies[at + 1]);
    }
    if attempts > 0 {
        handles_are_steady(replies, at + 2, count, name, attempts - 1);
    }
}

/// Creating an account fails only where the store failed.
proof fn creation_fails_with_the_store(
    replies: Seq<Reply>,
    at: int,
    user_id: Seq<char>,
    handle: Seq<char>,
    display_name: Seq<char>,
    identity: IdentityView,
    now_ms: i64,
) -> (place: int)
    requires
        0 <= at,
        external_identities::create_account_run(
            Trace { replies, at },
            user_id,
            handle,
            display_name,
            identity,
            now_ms,
        ).outcome is Fail,
    ensures
        at < place < replies.len(),
        replies[place] is Failed,
        external_identities::create_account_run(
            Trace { replies: replies.take(place), at },
            user_id,
            handle,
            display_name,
            identity,
            now_ms,
        ).outcome matches Outcome::Wait(Ask::Store(_)),
{
    let place = if replies[at + 1] is Failed {
        at + 1
    } else if replies[at + 2] is Failed {
        at + 2
    } else {
        at + 4
    };
    let cut = replies.take(place);
    assert(forall|i: int| 0 <= i < place ==> #[trigger] cut[i] == replies[i]);
    assert(cut[at] == replies[at]);
    assert(cut[at + 1] == replies[at + 1] || place <= at + 1);
    assert(cut[at + 2] == replies[at + 2] || place <= at + 2);
    assert(cut[at + 3] == replies[at + 3] || place <= at + 3);
    place
}

/// An identity that is introduced in vain is introduced to a store that was only read.
proof fn introduction_only_reads(
    identity: IdentityView,
    now: Timestamp,
    replies: Seq<Reply>,
    store: Store,
    place: int,
)
    requires
        model::served(identity_laws::resolving(identity, now), replies, store),
        model::ending(identity_laws::resolving(identity, now), replies) is Fail,
        external_identities::valid_identity(identity),
        replies.len() > 0,
        replies[0] matches Reply::Rows(rows) && rows@.len() == 0,
        1 <= place < replies.len(),
    ensures
        model::asked(identity_laws::resolving(identity, now), replies, place) matches Some(
            Ask::Store(op),
        ) ==> op.verb == Verb::Select,
{
    let workflow = identity_laws::resolving(identity, now);
    let name = identity.display_name;
    let full = profiles::try_handle_run(Trace { replies, at: 1 }, name, 8);
    assert(replies.take(place)[0] == replies[0]);
    handles_are_steady(replies, 1, place, name, 8);
    assert(model::served_at(workflow, replies, store, place));
    if let Outcome::Done(handle) = full.outcome {
        let at = full.trace.at;
        if at < place {
            assert(replies.take(place)[at] == replies[at]);
        }
        if let (Some(display_name), Some(now_ms)) = (
            profiles::normalized_display_name(name),
            game::millis_at(now),
        ) {
            let drawn = replies[at]->Ids_0@;
            let user_id = ids::id_text_of(drawn[0]);
            let failed = creation_fails_with_the_store(
                replies,
                at + 1,
                user_id,
                handle,
                display_name,
                identity,
                now_ms,
            );
            let cut = replies.take(failed);
            assert(cut[0] == replies[0]);
            assert(cut[at] == replies[at]);
            handles_are_steady(replies, 1, failed, name, 8);
            assert(model::served_at(workflow, replies, store, failed));
        }
    }
}

/// Resolving an identity that fails leaves every table as it was: no part of an account stays
/// behind.
pub proof fn failed_resolutions_change_nothing(
    identity: IdentityView,
    now: Timestamp,
    replies: Seq<Reply>,
    store: Store,
    error: ExternalIdentityError,
)
    requires
        model::served(identity_laws::resolving(identity, now), replies, store),
        model::ending(identity_laws::resolving(identity, now), replies) == Outcome::<
            (Seq<char>, bool),
            ExternalIdentityError,
        >::Fail(error),
    ensures
        model::store_after(identity_laws::resolving(identity, now), replies, store) == store,
{
    let workflow = identity_laws::resolving(identity, now);
    assert forall|place: int| 0 <= place < replies.len() implies ((#[trigger] model::asked(
        workflow,
        replies,
        place,
    )) matches Some(Ask::Store(op)) ==> op.verb == Verb::Select) by {
        assert(model::served_at(workflow, replies, store, place));
        assert(model::served_at(workflow, replies, store, 0));
        let cut = replies.take(place);
        if 0 < place {
            assert(cut[0] == replies[0]);
            if replies[0]->Rows_0@.len() == 0 {
                introduction_only_reads(identity, now, replies, store, place);
            }
        }
        if 1 < place {
            assert(cut[1] == replies[1]);
        }
    }
    frames::store_stays(workflow, replies, store, replies.len() as int);
}

} // verus!
