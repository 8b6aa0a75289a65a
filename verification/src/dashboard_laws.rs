//! What a dashboard shows of the store: every pending item and every game of its user, and nothing
//! else.
use crate::dashboard::{self, PendingView, Side, SummaryView};
use crate::model::{self, Record, Store, Workflow};
use crate::order;
use crate::projections::ProjectionError;
use crate::script::{self, Outcome, Reply, Run, Trace};
use crate::stages;
use crate::store::{self, Datum, Op, Relation, Row};
use crate::text;
use vstd::prelude::*;

verus! {

/// Loading the dashboard of a user.
pub open spec fn loading(user_id: Seq<char>) -> Workflow<
    (Seq<PendingView>, Seq<SummaryView>),
    ProjectionError,
> {
    |trace: Trace| dashboard::dashboard_run(trace, user_id)
}

/// The name that a user goes by.
pub open spec fn display_name(store: Store, user_id: Seq<char>) -> Option<Seq<char>> {
    let users = model::found(
        store.rows("users"@),
        seq![("user_id"@, Relation::Equal, Datum::Text(user_id))],
    );
    if users.len() > 0 {
        match model::datum_in(users[0], "username_display"@) {
            Datum::Text(name) => Some(name),
            _ => None,
        }
    } else {
        None
    }
}

/// Whether an item shows a challenge with some user as the other one.
pub open spec fn shows_challenge(
    item: PendingView,
    record: Record,
    other: Seq<char>,
    store: Store,
) -> bool {
    &&& item.kind == "CHALLENGE"@
    &&& model::datum_in(record, "challenge_id"@) == Datum::Text(item.id)
    &&& model::datum_in(record, "created_at_ms"@) == Datum::Integer(item.created_at_ms as int)
    &&& item.counterparty_user_id == Some(other)
    &&& item.counterparty_username == display_name(store, other)
}

/// Whether an item shows a challenge that its user has made.
pub open spec fn shows_outgoing(item: PendingView, record: Record, store: Store) -> bool {
    &&& item.direction == "OUTGOING"@
    &&& model::datum_in(record, "challenged_user_id"@) matches Datum::Text(challenged)
        && shows_challenge(item, record, challenged, store)
}

/// Whether an item shows a challenge that its user has received.
pub open spec fn shows_incoming(item: PendingView, record: Record, store: Store) -> bool {
    &&& item.direction == "INCOMING"@
    &&& model::datum_in(record, "challenger_user_id"@) matches Datum::Text(challenger)
        && shows_challenge(item, record, challenger, store)
}

/// Whether an item shows an invitation that its user has made.
pub open spec fn shows_invitation(item: PendingView, record: Record) -> bool {
    &&& item.kind == "INVITATION"@
    &&& item.direction == "OUTGOING"@
    &&& model::datum_in(record, "invitation_id"@) == Datum::Text(item.id)
    &&& model::datum_in(record, "created_at_ms"@) == Datum::Integer(item.created_at_ms as int)
    &&& item.counterparty_user_id is None
    &&& item.counterparty_username is None
}

/// The pending challenges that a user has made.
pub open spec fn made(store: Store, user_id: Seq<char>) -> Seq<Record> {
    model::found(
        store.rows("challenges"@),
        seq![
            ("challenger_user_id"@, Relation::Equal, Datum::Text(user_id)),
            ("status"@, Relation::Equal, Datum::Text("PENDING"@)),
        ],
    )
}

/// The pending challenges that a user has received.
pub open spec fn received(store: Store, user_id: Seq<char>) -> Seq<Record> {
    model::found(
        store.rows("challenges"@),
        seq![
            ("challenged_user_id"@, Relation::Equal, Datum::Text(user_id)),
            ("status"@, Relation::Equal, Datum::Text("PENDING"@)),
        ],
    )
}

/// The open invitations that a user has made.
pub open spec fn invited(store: Store, user_id: Seq<char>) -> Seq<Record> {
    model::found(
        store.rows("invitations"@),
        seq![
            ("creator_user_id"@, Relation::Equal, Datum::Text(user_id)),
            ("status"@, Relation::Equal, Datum::Text("ACTIVE"@)),
        ],
    )
}

/// Whether items show the challenges that a user has made, then those received, then the
/// invitations, each once.
pub open spec fn shows_pending(items: Seq<PendingView>, store: Store, user_id: Seq<char>) -> bool {
    let first = made(store, user_id);
    let second = received(store, user_id);
    let third = invited(store, user_id);
    &&& items.len() == first.len() + second.len() + third.len()
    &&& forall|i: int|
        0 <= i < first.len() ==> shows_outgoing(#[trigger] items[i], first[i], store)
    &&& forall|i: int|
        first.len() <= i < first.len() + second.len() ==> shows_incoming(
            #[trigger] items[i],
            second[i - first.len()],
            store,
        )
    &&& forall|i: int|
        first.len() + second.len() <= i < items.len() ==> shows_invitation(
            #[trigger] items[i],
            third[i - first.len() - second.len()],
        )
}

/// Whether a game on a dashboard shows a summary.
pub open spec fn shows_summary(game: SummaryView, record: Record) -> bool {
    &&& model::datum_in(record, "game_id"@) == Datum::Text(game.game_id)
    &&& model::datum_in(record, "status"@) == Datum::Text(game.status)
    &&& model::datum_in(record, "canonical_revision"@) == Datum::Integer(
        game.canonical_revision as int,
    )
    &&& model::datum_in(record, "updated_at_ms"@) == Datum::Integer(game.updated_at_ms as int)
    &&& match model::datum_in(record, "last_score"@) {
        Datum::Integer(score) => game.last_score matches Some(shown) && shown == score,
        _ => game.last_score is None,
    }
    &&& match model::datum_in(record, "active_player_user_id"@) {
        Datum::Text(user) => game.active_player_user_id == Some(user),
        _ => game.active_player_user_id is None,
    }
    &&& match model::datum_in(record, "winner_user_id"@) {
        Datum::Text(user) => game.winner_user_id == Some(user),
        _ => game.winner_user_id is None,
    }
}

/// The summaries of a game.
pub open spec fn summaries_of(store: Store, game: Datum) -> Seq<Record> {
    model::found(store.rows("game_summaries"@), seq![("game_id"@, Relation::Equal, game)])
}

/// The seats of a user.
pub open spec fn seats_of(store: Store, user_id: Seq<char>) -> Seq<Record> {
    model::found(
        store.rows("game_players"@),
        seq![("user_id"@, Relation::Equal, Datum::Text(user_id))],
    )
}

/// Whether games are those of the seats from `index` on that have a summary, in their order.
pub open spec fn shows_games(
    games: Seq<SummaryView>,
    seats: Seq<Record>,
    index: int,
    store: Store,
) -> bool
    decreases seats.len() - index,
{
    if index >= seats.len() {
        games.len() == 0
    } else {
        let summaries = summaries_of(store, model::datum_in(seats[index], "game_id"@));
        if summaries.len() == 0 {
            shows_games(games, seats, index + 1, store)
        } else {
            games.len() > 0 && shows_summary(games[0], summaries[0]) && shows_games(
                games.skip(1),
                seats,
                index + 1,
                store,
            )
        }
    }
}

/// What is found in a filtered table goes by the filter alone.
pub proof fn filtered(op: Op, filters: Seq<(Seq<char>, Relation, Datum)>, store: Store)
    requires
        op.verb == crate::store::Verb::Select,
        op.filters =~= filters,
        op.order is None,
        op.limit is None,
    ensures
        model::executed(store, op).1 == model::found(store.rows(op.table), filters),
        model::executed(store, op).0 == store,
{
}

spec fn with_challenges(
    side: Side,
    rows: Seq<Row>,
    index: int,
    items: Seq<PendingView>,
    rest: spec_fn(Seq<PendingView>, Trace) -> Run<
        (Seq<PendingView>, Seq<SummaryView>),
        ProjectionError,
    >,
) -> Workflow<(Seq<PendingView>, Seq<SummaryView>), ProjectionError> {
    |trace: Trace|
        script::chain(
            dashboard::gather_challenges_run(trace, side, rows, index, items),
            rest,
        )
}

spec fn shows_side(side: Side, item: PendingView, record: Record, store: Store) -> bool {
    match side {
        Side::Outgoing => shows_outgoing(item, record, store),
        Side::Incoming => shows_incoming(item, record, store),
    }
}

/// Challenges are gathered one after the other.
proof fn challenges_are_gathered(
    side: Side,
    rows: Seq<Row>,
    records: Seq<Record>,
    index: int,
    items: Seq<PendingView>,
    rest: spec_fn(Seq<PendingView>, Trace) -> Run<
        (Seq<PendingView>, Seq<SummaryView>),
        ProjectionError,
    >,
    replies: Seq<Reply>,
    from: int,
    store: Store,
) -> (gathered: (Seq<PendingView>, int))
    requires
        model::all_shown(rows, records),
        0 <= index <= rows.len(),
        stages::underway(
            with_challenges(side, rows, index, items, rest),
            replies,
            from,
            store,
            stages::anything(),
        ),
        with_challenges(side, rows, index, items, rest)(
            Trace { replies, at: from },
        ).outcome is Done,
    ensures
        gathered.0.len() == items.len() + rows.len() - index,
        forall|i: int| 0 <= i < items.len() ==> #[trigger] gathered.0[i] == items[i],
        forall|i: int|
            items.len() <= i < gathered.0.len() ==> shows_side(
                side,
                #[trigger] gathered.0[i],
                records[index + i - items.len()],
                store,
            ),
        stages::underway(
            |trace: Trace| rest(gathered.0, trace),
            replies,
            gathered.1,
            store,
            stages::anything(),
        ),
        with_challenges(side, rows, index, items, rest)(Trace { replies, at: from }) == rest(
            gathered.0,
            Trace { replies, at: gathered.1 },
        ),
    decreases rows.len() - index,
{
    let fits = stages::anything();
    let stage = with_challenges(side, rows, index, items, rest);
    if index >= rows.len() {
        let next: Workflow<(Seq<PendingView>, Seq<SummaryView>), ProjectionError> = |trace: Trace|
            rest(items, trace);
        assert forall|trace: Trace| #[trigger] stage(trace) == next(trace) by {}
        stages::same_underway(stage, next, replies, from, store, fits);
        (items, from)
    } else {
        let row = rows[index];
        let record = records[index];
        assert(model::shows(rows[index], records[index]));
        let other = match side {
            Side::Outgoing => "challenged_user_id"@,
            Side::Incoming => "challenger_user_id"@,
        };
        model::shown_values(row, record, "challenge_id"@);
        model::shown_values(row, record, other);
        model::shown_values(row, record, "created_at_ms"@);
        let counterparty = row.text_at(other)->0;
        let op = Op::select("users"@).where_text("user_id"@, counterparty);
        let item = |names: Seq<Row>|
            PendingView {
                id: row.text_at("challenge_id"@)->0,
                kind: "CHALLENGE"@,
                direction: side.direction_of(),
                counterparty_user_id: Some(counterparty),
                counterparty_username: store::first_text_of(names, "username_display"@),
                created_at_ms: row.integer_at("created_at_ms"@)->0,
            };
        let going = |names: Seq<Row>, trace: Trace|
            if row.integer_at("created_at_ms"@) is None {
                script::fail(trace, ProjectionError::Malformed)
            } else {
                with_challenges(side, rows, index + 1, items.push(item(names)), rest)(trace)
            };
        assert(stage(Trace { replies, at: from }).outcome is Done);
        assert forall|trace: Trace| #[trigger] stage(trace) == script::query(
            trace,
            op,
            going,
        ) by {}
        let names = stages::asks_store(stage, op, going, replies, from, store, fits);
        let users = model::found(
            store.rows("users"@),
            seq![("user_id"@, Relation::Equal, Datum::Text(counterparty))],
        );
        filtered(op, seq![("user_id"@, Relation::Equal, Datum::Text(counterparty))], store);
        if users.len() > 0 {
            model::shown_values(names[0], users[0], "username_display"@);
        }
        let second: Workflow<(Seq<PendingView>, Seq<SummaryView>), ProjectionError> = |
            trace: Trace,
        | going(names, trace);
        assert(second(Trace { replies, at: from + 1 }).outcome is Done);
        let next = with_challenges(side, rows, index + 1, items.push(item(names)), rest);
        assert(second =~= next);
        let (all, mid) = challenges_are_gathered(
            side,
            rows,
            records,
            index + 1,
            items.push(item(names)),
            rest,
            replies,
            from + 1,
            store,
        );
        assert forall|i: int| 0 <= i < items.len() implies #[trigger] all[i] == items[i] by {
            assert(all[i] == items.push(item(names))[i]);
        }
        assert forall|i: int| items.len() <= i < all.len() implies shows_side(
            side,
            #[trigger] all[i],
            records[index + i - items.len()],
            store,
        ) by {
            if i == items.len() {
                assert(all[i] == items.push(item(names))[i]);
            }
        }
        (all, mid)
    }
}

/// The items of invitations.
spec fn invitation_items(rows: Seq<Row>) -> Seq<PendingView> {
    Seq::new(rows.len(), |i: int| dashboard::invitation_row(rows[i])->0)
}

/// Invitations are gathered at once.
proof fn invitations_are_gathered(
    trace: Trace,
    rows: Seq<Row>,
    index: int,
    items: Seq<PendingView>,
)
    requires
        0 <= index <= rows.len(),
    ensures
        (forall|i: int|
            index <= i < rows.len() ==> dashboard::invitation_row(#[trigger] rows[i]) is Some)
            ==> dashboard::gather_invitations_run(trace, rows, index, items) == script::done::<
            Seq<PendingView>,
            ProjectionError,
        >(trace, items + invitation_items(rows).skip(index)),
        dashboard::gather_invitations_run(trace, rows, index, items).outcome is Done ==> forall|
            i: int,
        |
            index <= i < rows.len() ==> dashboard::invitation_row(#[trigger] rows[i]) is Some,
        !(dashboard::gather_invitations_run(trace, rows, index, items).outcome is Wait),
    decreases rows.len() - index,
{
    let all = invitation_items(rows);
    if index < rows.len() {
        if let Some(item) = dashboard::invitation_row(rows[index]) {
            invitations_are_gathered(trace, rows, index + 1, items.push(item));
            assert(items.push(item) + all.skip(index + 1) =~= items + all.skip(index));
        }
    } else {
        assert(items + all.skip(index) =~= items);
    }
}

proof fn invitation_is_shown(row: Row, record: Record)
    requires
        model::shows(row, record),
        dashboard::invitation_row(row) is Some,
    ensures
        shows_invitation(dashboard::invitation_row(row)->0, record),
{
    model::shown_values(row, record, "invitation_id"@);
    model::shown_values(row, record, "created_at_ms"@);
}

proof fn summary_is_shown(row: Row, record: Record)
    requires
        model::shows(row, record),
        dashboard::summary_row(row) is Some,
    ensures
        shows_summary(dashboard::summary_row(row)->0, record),
{
    model::shown_values(row, record, "game_id"@);
    model::shown_values(row, record, "status"@);
    model::shown_values(row, record, "canonical_revision"@);
    model::shown_values(row, record, "updated_at_ms"@);
    model::shown_values(row, record, "last_score"@);
    model::shown_values(row, record, "active_player_user_id"@);
    model::shown_values(row, record, "winner_user_id"@);
}

spec fn with_games<U>(
    seats: Seq<Row>,
    index: int,
    games: Seq<SummaryView>,
    rest: spec_fn(Seq<SummaryView>, Trace) -> Run<U, ProjectionError>,
) -> Workflow<U, ProjectionError> {
    |trace: Trace|
        script::chain(dashboard::gather_summaries_run(trace, seats, index, games), rest)
}

/// Games are gathered one after the other.
proof fn games_are_gathered<U>(
    seats: Seq<Row>,
    records: Seq<Record>,
    index: int,
    games: Seq<SummaryView>,
    rest: spec_fn(Seq<SummaryView>, Trace) -> Run<U, ProjectionError>,
    replies: Seq<Reply>,
    from: int,
    store: Store,
) -> (gathered: (Seq<SummaryView>, int))
    requires
        model::all_shown(seats, records),
        0 <= index <= seats.len(),
        stages::underway(
            with_games(seats, index, games, rest),
            replies,
            from,
            store,
            stages::anything(),
        ),
        with_games(seats, index, games, rest)(Trace { replies, at: from }).outcome is Done,
    ensures
        gathered.0.len() >= games.len(),
        gathered.0.take(games.len() as int) == games,
        shows_games(gathered.0.skip(games.len() as int), records, index, store),
        with_games(seats, index, games, rest)(Trace { replies, at: from }) == rest(
            gathered.0,
            Trace { replies, at: gathered.1 },
        ),
    decreases seats.len() - index,
{
    let fits = stages::anything();
    let stage = with_games(seats, index, games, rest);
    if index >= seats.len() {
        assert(games.take(games.len() as int) =~= games);
        (games, from)
    } else {
        let record = records[index];
        assert(model::shows(seats[index], records[index]));
        model::shown_values(seats[index], record, "game_id"@);
        assert(stage(Trace { replies, at: from }).outcome is Done);
        let game_id = seats[index].text_at("game_id"@)->0;
        assert(model::datum_in(record, "game_id"@) == Datum::Text(game_id));
        let op = Op::select("game_summaries"@).where_text("game_id"@, game_id);
        let going = |rows: Seq<Row>, trace: Trace|
            if rows.len() == 0 {
                with_games(seats, index + 1, games, rest)(trace)
            } else {
                match dashboard::summary_row(rows[0]) {
                    None => script::fail(trace, ProjectionError::Malformed),
                    Some(summary) => with_games(seats, index + 1, games.push(summary), rest)(
                        trace,
                    ),
                }
            };
        assert forall|trace: Trace| #[trigger] stage(trace) == script::query(
            trace,
            op,
            going,
        ) by {}
        let rows = stages::asks_store(stage, op, going, replies, from, store, fits);
        filtered(op, seq![("game_id"@, Relation::Equal, Datum::Text(game_id))], store);
        let summaries = summaries_of(store, Datum::Text(game_id));
        let second: Workflow<U, ProjectionError> = |trace: Trace| going(rows, trace);
        assert(second(Trace { replies, at: from + 1 }).outcome is Done);
        if rows.len() == 0 {
            let next = with_games(seats, index + 1, games, rest);
            assert(second =~= next);
            games_are_gathered(
                seats,
                records,
                index + 1,
                games,
                rest,
                replies,
                from + 1,
                store,
            )
        } else {
            let summary = dashboard::summary_row(rows[0])->0;
            summary_is_shown(rows[0], summaries[0]);
            let more = games.push(summary);
            let next = with_games(seats, index + 1, more, rest);
            assert(second =~= next);
            let (all, mid) = games_are_gathered(
                seats,
                records,
                index + 1,
                more,
                rest,
                replies,
                from + 1,
                store,
            );
            let count = games.len() as int;
            assert(all.take(count) =~= games) by {
                assert(all.take(count) =~= all.take(count + 1).take(count));
                assert(more.take(count) =~= games);
            }
            assert(all[count] == summary) by {
                assert(all.take(count + 1)[count] == more[count]);
            }
            assert(all.skip(count).skip(1) =~= all.skip(count + 1));
            assert(all.skip(count)[0] == summary);
            (all, mid)
        }
    }
}

spec fn last_part(user_id: Seq<char>, items: Seq<PendingView>) -> Workflow<
    (Seq<PendingView>, Seq<SummaryView>),
    ProjectionError,
> {
    |trace: Trace|
        script::reshape(
            dashboard::user_game_summaries_run(trace, user_id),
            |games: Seq<SummaryView>| (dashboard::arranged_pending(items), games),
        )
}

/// The games of a dashboard are those of its user.
proof fn games_are_loaded(
    user_id: Seq<char>,
    items: Seq<PendingView>,
    replies: Seq<Reply>,
    from: int,
    store: Store,
) -> (games: Seq<SummaryView>)
    requires
        stages::underway(last_part(user_id, items), replies, from, store, stages::anything()),
        last_part(user_id, items)(Trace { replies, at: from }).outcome is Done,
    ensures
        shows_games(games, seats_of(store, user_id), 0, store),
        last_part(user_id, items)(Trace { replies, at: from }).outcome == Outcome::<
            (Seq<PendingView>, Seq<SummaryView>),
            ProjectionError,
        >::Done((dashboard::arranged_pending(items), dashboard::arranged_summaries(games))),
{
    let fits = stages::anything();
    let stage = last_part(user_id, items);
    let op = Op::select("game_players"@).where_text("user_id"@, user_id);
    let rest = |games: Seq<SummaryView>, trace: Trace|
        script::done::<(Seq<PendingView>, Seq<SummaryView>), ProjectionError>(
            trace,
            (dashboard::arranged_pending(items), dashboard::arranged_summaries(games)),
        );
    let going = |seats: Seq<Row>, trace: Trace| with_games(seats, 0, Seq::empty(), rest)(trace);
    assert forall|trace: Trace| #[trigger] stage(trace) == script::query(trace, op, going) by {}
    let seats = stages::asks_store(stage, op, going, replies, from, store, fits);
    filtered(op, seq![("user_id"@, Relation::Equal, Datum::Text(user_id))], store);
    let second: Workflow<(Seq<PendingView>, Seq<SummaryView>), ProjectionError> = |trace: Trace| going(seats, trace);
    let next = with_games(seats, 0, Seq::empty(), rest);
    assert(second =~= next);
    let (games, mid) = games_are_gathered(
        seats,
        seats_of(store, user_id),
        0,
        Seq::empty(),
        rest,
        replies,
        from + 1,
        store,
    );
    assert(games.skip(0) =~= games);
    games
}

spec fn third_part(user_id: Seq<char>) -> spec_fn(Seq<PendingView>, Trace) -> Run<
    (Seq<PendingView>, Seq<SummaryView>),
    ProjectionError,
> {
    |challenges: Seq<PendingView>, trace: Trace|
        script::chain(
            dashboard::invitations_run(trace, user_id, challenges),
            |items: Seq<PendingView>, trace: Trace| last_part(user_id, items)(trace),
        )
}

/// The invitations of a dashboard are those of its user.
proof fn invitations_are_loaded(
    user_id: Seq<char>,
    challenges: Seq<PendingView>,
    replies: Seq<Reply>,
    from: int,
    store: Store,
) -> (loaded: (Seq<PendingView>, Seq<SummaryView>))
    requires
        stages::underway(
            |trace: Trace| third_part(user_id)(challenges, trace),
            replies,
            from,
            store,
            stages::anything(),
        ),
        third_part(user_id)(challenges, Trace { replies, at: from }).outcome is Done,
    ensures
        loaded.0.len() == challenges.len() + invited(store, user_id).len(),
        forall|i: int| 0 <= i < challenges.len() ==> #[trigger] loaded.0[i] == challenges[i],
        forall|i: int|
            challenges.len() <= i < loaded.0.len() ==> shows_invitation(
                #[trigger] loaded.0[i],
                invited(store, user_id)[i - challenges.len()],
            ),
        shows_games(loaded.1, seats_of(store, user_id), 0, store),
        third_part(user_id)(challenges, Trace { replies, at: from }).outcome == Outcome::<
            (Seq<PendingView>, Seq<SummaryView>),
            ProjectionError,
        >::Done(
            (dashboard::arranged_pending(loaded.0), dashboard::arranged_summaries(loaded.1)),
        ),
{
    let fits = stages::anything();
    let stage: Workflow<(Seq<PendingView>, Seq<SummaryView>), ProjectionError> = |trace: Trace|
        third_part(user_id)(challenges, trace);
    let op = Op::select("invitations"@).where_text("creator_user_id"@, user_id).where_text(
        "status"@,
        "ACTIVE"@,
    );
    let last = |items: Seq<PendingView>, trace: Trace| last_part(user_id, items)(trace);
    let going = |rows: Seq<Row>, trace: Trace|
        script::chain(dashboard::gather_invitations_run(trace, rows, 0, challenges), last);
    assert forall|trace: Trace| #[trigger] stage(trace) == script::query(trace, op, going) by {}
    let rows = stages::asks_store(stage, op, going, replies, from, store, fits);
    let records = invited(store, user_id);
    filtered(
        op,
        seq![
            ("creator_user_id"@, Relation::Equal, Datum::Text(user_id)),
            ("status"@, Relation::Equal, Datum::Text("ACTIVE"@)),
        ],
        store,
    );
    let second: Workflow<(Seq<PendingView>, Seq<SummaryView>), ProjectionError> = |trace: Trace| going(rows, trace);
    let middle = Trace { replies, at: from + 1 };
    assert(second(middle).outcome is Done);
    invitations_are_gathered(middle, rows, 0, challenges);
    let items = challenges + invitation_items(rows).skip(0);
    let next = last_part(user_id, items);
    assert forall|trace: Trace| #[trigger] second(trace) == next(trace) by {
        invitations_are_gathered(trace, rows, 0, challenges);
    }
    stages::same_underway(second, next, replies, from + 1, store, fits);
    assert forall|i: int| challenges.len() <= i < items.len() implies shows_invitation(
        #[trigger] items[i],
        records[i - challenges.len()],
    ) by {
        let k = i - challenges.len();
        assert(model::shows(rows[k], records[k]));
        assert(dashboard::invitation_row(rows[k]) is Some);
        invitation_is_shown(rows[k], records[k]);
    }
    let games = games_are_loaded(user_id, items, replies, from + 1, store);
    (items, games)
}

spec fn second_part(user_id: Seq<char>) -> spec_fn(Seq<PendingView>, Trace) -> Run<
    (Seq<PendingView>, Seq<SummaryView>),
    ProjectionError,
> {
    |outgoing: Seq<PendingView>, trace: Trace|
        script::chain(
            dashboard::challenges_run(trace, user_id, Side::Incoming, outgoing),
            third_part(user_id),
        )
}

/// The challenges of one side are those of the user.
proof fn challenges_are_loaded(
    stage: Workflow<(Seq<PendingView>, Seq<SummaryView>), ProjectionError>,
    user_id: Seq<char>,
    side: Side,
    items: Seq<PendingView>,
    rest: spec_fn(Seq<PendingView>, Trace) -> Run<(Seq<PendingView>, Seq<SummaryView>), ProjectionError>,
    replies: Seq<Reply>,
    from: int,
    store: Store,
) -> (gathered: (Seq<PendingView>, int))
    requires
        forall|trace: Trace| #[trigger]
            stage(trace) == script::chain(
                dashboard::challenges_run(trace, user_id, side, items),
                rest,
            ),
        stages::underway(stage, replies, from, store, stages::anything()),
        stage(Trace { replies, at: from }).outcome is Done,
    ensures
        ({
            let records = match side {
                Side::Outgoing => made(store, user_id),
                Side::Incoming => received(store, user_id),
            };
            &&& gathered.0.len() == items.len() + records.len()
            &&& forall|i: int| 0 <= i < items.len() ==> #[trigger] gathered.0[i] == items[i]
            &&& forall|i: int|
                items.len() <= i < gathered.0.len() ==> shows_side(
                    side,
                    #[trigger] gathered.0[i],
                    records[i - items.len()],
                    store,
                )
        }),
        stages::underway(
            |trace: Trace| rest(gathered.0, trace),
            replies,
            gathered.1,
            store,
            stages::anything(),
        ),
        stage(Trace { replies, at: from }) == rest(
            gathered.0,
            Trace { replies, at: gathered.1 },
        ),
{
    let fits = stages::anything();
    let own = match side {
        Side::Outgoing => "challenger_user_id"@,
        Side::Incoming => "challenged_user_id"@,
    };
    let op = Op::select("challenges"@).where_text(own, user_id).where_text(
        "status"@,
        "PENDING"@,
    );
    let going = |rows: Seq<Row>, trace: Trace| with_challenges(side, rows, 0, items, rest)(trace);
    assert forall|trace: Trace| #[trigger] stage(trace) == script::query(trace, op, going) by {}
    let rows = stages::asks_store(stage, op, going, replies, from, store, fits);
    let filters = seq![
        (own, Relation::Equal, Datum::Text(user_id)),
        ("status"@, Relation::Equal, Datum::Text("PENDING"@)),
    ];
    filtered(op, filters, store);
    let records = model::found(store.rows("challenges"@), filters);
    let second: Workflow<(Seq<PendingView>, Seq<SummaryView>), ProjectionError> = |trace: Trace| going(rows, trace);
    let next = with_challenges(side, rows, 0, items, rest);
    assert(second =~= next);
    challenges_are_gathered(side, rows, records, 0, items, rest, replies, from + 1, store)
}

/// Whether a list of pending items is in dashboard order: newer ones first, those of one moment by
/// their identities.
pub open spec fn newest_first(items: Seq<PendingView>) -> bool {
    forall|i: int, j: int|
        0 <= i < j < items.len() ==> (#[trigger] items[i]).created_at_ms > (
        #[trigger] items[j]).created_at_ms || (items[i].created_at_ms == items[j].created_at_ms
            && !text::precedes(items[j].id, items[i].id))
}

/// Whether a list of games is in dashboard order: the most recent activity first, games of one
/// moment by their identities.
pub open spec fn liveliest_first(games: Seq<SummaryView>) -> bool {
    forall|i: int, j: int|
        0 <= i < j < games.len() ==> (#[trigger] games[i]).updated_at_ms > (
        #[trigger] games[j]).updated_at_ms || (games[i].updated_at_ms == games[j].updated_at_ms
            && !text::precedes(games[j].game_id, games[i].game_id))
}

/// Whether a dashboard shows what a store holds of its user.
pub open spec fn shows(
    pending: Seq<PendingView>,
    games: Seq<SummaryView>,
    store: Store,
    user_id: Seq<char>,
) -> bool {
    &&& newest_first(pending)
    &&& liveliest_first(games)
    &&& exists|items: Seq<PendingView>|
        #[trigger] shows_pending(items, store, user_id) && items.to_multiset()
            == pending.to_multiset()
    &&& exists|listed: Seq<SummaryView>|
        #[trigger] shows_games(listed, seats_of(store, user_id), 0, store)
            && listed.to_multiset() == games.to_multiset()
}

/// A dashboard shows exactly the pending challenges that its user has made and received, each with
/// the other user, the user's open invitations, and the user's games, newest first.
pub proof fn dashboards_show_what_is_stored(
    user_id: Seq<char>,
    replies: Seq<Reply>,
    store: Store,
    pending: Seq<PendingView>,
    games: Seq<SummaryView>,
)
    requires
        model::served(loading(user_id), replies, store),
        model::ending(loading(user_id), replies) == Outcome::<(Seq<PendingView>, Seq<SummaryView>), ProjectionError>::Done(
            (pending, games),
        ),
    ensures
        shows(pending, games, store, user_id),
{
    let fits = stages::anything();
    let workflow = loading(user_id);
    stages::whole_is_underway(workflow, replies, store, fits);
    assert forall|trace: Trace| #[trigger] workflow(trace) == script::chain(
        dashboard::challenges_run(trace, user_id, Side::Outgoing, Seq::empty()),
        second_part(user_id),
    ) by {
        dashboard_has_parts(user_id, trace);
    }
    let (outgoing, mid) = challenges_are_loaded(
        workflow,
        user_id,
        Side::Outgoing,
        Seq::empty(),
        second_part(user_id),
        replies,
        0,
        store,
    );
    let second: Workflow<(Seq<PendingView>, Seq<SummaryView>), ProjectionError> = |trace: Trace|
        second_part(user_id)(outgoing, trace);
    let (challenges, end) = challenges_are_loaded(
        second,
        user_id,
        Side::Incoming,
        outgoing,
        third_part(user_id),
        replies,
        mid,
        store,
    );
    let (items, listed) = invitations_are_loaded(user_id, challenges, replies, end, store);
    let first = made(store, user_id).len();
    let more = received(store, user_id).len();
    assert forall|i: int| 0 <= i < first implies shows_outgoing(
        #[trigger] items[i],
        made(store, user_id)[i],
        store,
    ) by {
        assert(items[i] == challenges[i]);
        assert(challenges[i] == outgoing[i]);
    }
    assert forall|i: int| first <= i < first + more implies shows_incoming(
        #[trigger] items[i],
        received(store, user_id)[i - first],
        store,
    ) by {
        assert(items[i] == challenges[i]);
    }
    assert(shows_pending(items, store, user_id));
    pending_is_ordered(items);
    games_are_in_order(listed);
    dashboard::pending_items_are_ordered(items);
    dashboard::games_are_ordered(listed);
}

proof fn dashboard_has_parts(user_id: Seq<char>, trace: Trace)
    ensures
        loading(user_id)(trace) == script::chain(
            dashboard::challenges_run(trace, user_id, Side::Outgoing, Seq::empty()),
            second_part(user_id),
        ),
{
    let last = |items: Seq<PendingView>, trace: Trace|
        script::reshape(
            dashboard::user_game_summaries_run(trace, user_id),
            |games: Seq<SummaryView>| (dashboard::arranged_pending(items), games),
        );
    let same = |items: Seq<PendingView>, trace: Trace| last_part(user_id, items)(trace);
    assert(last =~= same);
    let third = |challenges: Seq<PendingView>, trace: Trace|
        script::chain(dashboard::invitations_run(trace, user_id, challenges), last);
    assert(third =~= third_part(user_id));
    let second = |outgoing: Seq<PendingView>, trace: Trace|
        script::chain(
            dashboard::challenges_run(trace, user_id, Side::Incoming, outgoing),
            third,
        );
    assert(second =~= second_part(user_id));
}

proof fn pending_is_ordered(items: Seq<PendingView>)
    ensures
        newest_first(dashboard::arranged_pending(items)),
{
    let sorted = dashboard::arranged_pending(items);
    let before = |left: PendingView, right: PendingView| dashboard::pending_before(left, right);
    order::arranged_keeps_elements(items, before);
    dashboard::pending_items_are_ordered(items);
    assert forall|i: int, j: int| 0 <= i < j < sorted.len() implies (
    #[trigger] sorted[i]).created_at_ms > (#[trigger] sorted[j]).created_at_ms || (
    sorted[i].created_at_ms == sorted[j].created_at_ms && !text::precedes(
        sorted[j].id,
        sorted[i].id,
    )) by {
        assert(!dashboard::pending_before(sorted[j], sorted[i]));
    }
}

proof fn games_are_in_order(games: Seq<SummaryView>)
    ensures
        liveliest_first(dashboard::arranged_summaries(games)),
{
    let sorted = dashboard::arranged_summaries(games);
    let before = |left: SummaryView, right: SummaryView| dashboard::summary_before(left, right);
    order::arranged_keeps_elements(games, before);
    dashboard::games_are_ordered(games);
    assert forall|i: int, j: int| 0 <= i < j < sorted.len() implies (
    #[trigger] sorted[i]).updated_at_ms > (#[trigger] sorted[j]).updated_at_ms || (
    sorted[i].updated_at_ms == sorted[j].updated_at_ms && !text::precedes(
        sorted[j].game_id,
        sorted[i].game_id,
    )) by {
        assert(!dashboard::summary_before(sorted[j], sorted[i]));
    }
}

/// Every pending challenge on a dashboard names the other user of a stored challenge of its user,
/// who is never the user where the two differ.
pub proof fn challenges_name_the_other_user(
    user_id: Seq<char>,
    store: Store,
    pending: Seq<PendingView>,
    games: Seq<SummaryView>,
    at: int,
)
    requires
        shows(pending, games, store, user_id),
        0 <= at < pending.len(),
        pending[at].kind == "CHALLENGE"@,
    ensures
        exists|i: int|
            0 <= i < store.rows("challenges"@).len() && names_other(
                pending[at],
                #[trigger] store.rows("challenges"@)[i],
                user_id,
            ),
{
    broadcast use vstd::seq_lib::group_to_multiset_ensures;

    let items = choose|items: Seq<PendingView>|
        #[trigger] shows_pending(items, store, user_id) && items.to_multiset()
            == pending.to_multiset();
    let item = pending[at];
    assert(pending.contains(item));
    assert(items.to_multiset().count(item) > 0);
    assert(items.contains(item));
    let k = choose|k: int| 0 <= k < items.len() && items[k] == item;
    let first = made(store, user_id);
    let second = received(store, user_id);
    reveal_strlit("CHALLENGE");
    reveal_strlit("INVITATION");
    assert("CHALLENGE"@.len() == 9);
    assert("INVITATION"@.len() == 10);
    let rows = store.rows("challenges"@);
    if k < first.len() {
        let filters = seq![
            ("challenger_user_id"@, Relation::Equal, Datum::Text(user_id)),
            ("status"@, Relation::Equal, Datum::Text("PENDING"@)),
        ];
        model::found_rows(rows, filters);
        assert(shows_outgoing(items[k], first[k], store));
        assert(model::meets_all(first[k], filters));
        assert(model::meets(first[k], filters[0]));
        assert(model::meets(first[k], filters[1]));
        let i = choose|i: int| 0 <= i < rows.len() && rows[i] == first[k];
        assert(names_other(item, rows[i], user_id));
    } else {
        assert(k < first.len() + second.len()) by {
            if k >= first.len() + second.len() {
                assert(shows_invitation(
                    items[k],
                    invited(store, user_id)[k - first.len() - second.len()],
                ));
            }
        }
        let record = second[k - first.len()];
        let filters = seq![
            ("challenged_user_id"@, Relation::Equal, Datum::Text(user_id)),
            ("status"@, Relation::Equal, Datum::Text("PENDING"@)),
        ];
        model::found_rows(rows, filters);
        assert(shows_incoming(items[k], record, store));
        assert(model::meets_all(record, filters));
        assert(model::meets(record, filters[0]));
        assert(model::meets(record, filters[1]));
        let i = choose|i: int| 0 <= i < rows.len() && rows[i] == record;
        assert(names_other(item, rows[i], user_id));
    }
}

/// Whether an item names the user on the other side of a pending challenge from a user.
pub open spec fn names_other(item: PendingView, record: Record, user_id: Seq<char>) -> bool {
    let challenger = model::datum_in(record, "challenger_user_id"@);
    let challenged = model::datum_in(record, "challenged_user_id"@);
    &&& model::datum_in(record, "challenge_id"@) == Datum::Text(item.id)
    &&& model::datum_in(record, "status"@) == Datum::Text("PENDING"@)
    &&& item.counterparty_user_id is Some
    &&& {
        ||| challenger == Datum::Text(user_id) && challenged == Datum::Text(
            item.counterparty_user_id->0,
        )
        ||| challenged == Datum::Text(user_id) && challenger == Datum::Text(
            item.counterparty_user_id->0,
        )
    }
    &&& challenger != challenged ==> item.counterparty_user_id != Some(user_id)
}

} // verus!
