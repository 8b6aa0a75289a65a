//! Whom a page names: its viewer, the opponent, and the owner of a dashboard, as they are stored.
use crate::dashboard::{self, PendingView, SummaryView};
use crate::dashboard_laws;
use crate::game::{GameId, Timestamp};
use crate::ids;
use crate::model::{self, Record, Store, Workflow};
use crate::presentation::{self, PersonView, PresentationError, SignedInView};
use crate::projections::{self, ProjectionError, TotalsView};
use crate::script::{self, Ask, Outcome, Reply, Run, Trace};
use crate::stages;
use crate::store::{Datum, Op, Relation, Row};
use vstd::prelude::*;

verus! {

/// The rows that a table holds of a user.
pub open spec fn rows_of_user(store: Store, table: Seq<char>, user_id: Seq<char>) -> Seq<Record> {
    model::found(
        store.rows(table),
        seq![("user_id"@, Relation::Equal, Datum::Text(user_id))],
    )
}

/// Whether a person is shown as stored: by the name at sign-in, by the profile's display name or,
/// without a profile, by the name at sign-in, and with the address of the stored picture, if any.
pub open spec fn person_shown(person: PersonView, store: Store, user_id: Seq<char>) -> bool {
    let profiles = rows_of_user(store, "user_profiles"@, user_id);
    let pictures = rows_of_user(store, "user_profile_images"@, user_id);
    &&& dashboard_laws::display_name(store, user_id) == Some(person.username)
    &&& profiles.len() == 0 ==> person.display_name == person.username
    &&& profiles.len() > 0 ==> model::datum_in(profiles[0], "display_name"@) == Datum::Text(
        person.display_name,
    )
    &&& pictures.len() == 0 ==> person.avatar_url is None
    &&& pictures.len() > 0 ==> (model::datum_in(
        pictures[0],
        "content_sha256"@,
    ) matches Datum::Text(hash) && person.avatar_url == Some(
        "/profiles/"@ + user_id + "/avatar/"@ + hash,
    ))
}

/// The seats of a game.
pub open spec fn seats(store: Store, game_id: GameId) -> Seq<Record> {
    model::found(
        store.rows("game_players"@),
        seq![("game_id"@, Relation::Equal, Datum::Text(ids::id_text_of(game_id)))],
    )
}

/// Whether a seat is held by somebody other than a user.
pub open spec fn held_by_another(seat: Record, user_id: Seq<char>) -> bool {
    model::datum_in(seat, "user_id"@) matches Datum::Text(other) && other != user_id
}

/// Whether a user holds the first seat of a game that is not the viewer's.
pub open spec fn opposes(
    store: Store,
    game_id: GameId,
    viewer: Seq<char>,
    other: Seq<char>,
) -> bool {
    exists|i: int|
        0 <= i < seats(store, game_id).len() && model::datum_in(
            #[trigger] seats(store, game_id)[i],
            "user_id"@,
        ) == Datum::Text(other) && other != viewer && forall|j: int|
            0 <= j < i ==> !held_by_another(#[trigger] seats(store, game_id)[j], viewer)
}

/// Loading the people of a game's page.
pub open spec fn loading_people(game_id: GameId, user_id: Seq<char>) -> Workflow<
    (PersonView, PersonView),
    PresentationError,
> {
    |trace: Trace| presentation::people_run(trace, game_id, user_id)
}

proof fn name_is_read<T>(
    stage: Workflow<T, PresentationError>,
    user_id: Seq<char>,
    rest: spec_fn(Seq<char>, Trace) -> Run<T, PresentationError>,
    replies: Seq<Reply>,
    from: int,
    store: Store,
) -> (name: Seq<char>)
    requires
        stages::underway(stage, replies, from, store, stages::anything()),
        stage(Trace { replies, at: from }).outcome is Done,
        forall|trace: Trace| #[trigger]
            stage(trace) == script::chain(presentation::username_run(trace, user_id), rest),
    ensures
        dashboard_laws::display_name(store, user_id) == Some(name),
        stages::underway(
            |trace: Trace| rest(name, trace),
            replies,
            from + 1,
            store,
            stages::anything(),
        ),
        stage(Trace { replies, at: from }) == rest(name, Trace { replies, at: from + 1 }),
{
    let op = Op::select("users"@).where_text("user_id"@, user_id);
    let going = |rows: Seq<Row>, trace: Trace|
        match crate::store::first_text_of(rows, "username_display"@) {
            Some(name) => rest(name, trace),
            None => script::fail(trace, PresentationError::Malformed),
        };
    assert forall|trace: Trace| #[trigger] stage(trace) == script::query(trace, op, going) by {}
    let rows = stages::asks_store(stage, op, going, replies, from, store, stages::anything());
    dashboard_laws::filtered(
        op,
        seq![("user_id"@, Relation::Equal, Datum::Text(user_id))],
        store,
    );
    let users = rows_of_user(store, "users"@, user_id);
    if rows.len() > 0 {
        model::shown_values(rows[0], users[0], "username_display"@);
    }
    let name = crate::store::first_text_of(rows, "username_display"@)->0;
    let second: Workflow<T, PresentationError> = |trace: Trace| going(rows, trace);
    let next: Workflow<T, PresentationError> = |trace: Trace| rest(name, trace);
    assert(second =~= next);
    name
}

proof fn display_name_is_read<T>(
    stage: Workflow<T, PresentationError>,
    user_id: Seq<char>,
    username: Seq<char>,
    rest: spec_fn(Seq<char>, Trace) -> Run<T, PresentationError>,
    replies: Seq<Reply>,
    from: int,
    store: Store,
) -> (name: Seq<char>)
    requires
        stages::underway(stage, replies, from, store, stages::anything()),
        stage(Trace { replies, at: from }).outcome is Done,
        forall|trace: Trace| #[trigger]
            stage(trace) == script::chain(
                presentation::display_name_run(trace, user_id, username),
                rest,
            ),
    ensures
        ({
            let profiles = rows_of_user(store, "user_profiles"@, user_id);
            &&& profiles.len() == 0 ==> name == username
            &&& profiles.len() > 0 ==> model::datum_in(profiles[0], "display_name"@)
                == Datum::Text(name)
        }),
        stages::underway(
            |trace: Trace| rest(name, trace),
            replies,
            from + 1,
            store,
            stages::anything(),
        ),
        stage(Trace { replies, at: from }) == rest(name, Trace { replies, at: from + 1 }),
{
    let op = Op::select("user_profiles"@).where_text("user_id"@, user_id);
    let going = |rows: Seq<Row>, trace: Trace|
        if rows.len() == 0 {
            rest(username, trace)
        } else {
            match crate::profiles::profile_row(rows[0]) {
                Some(profile) => rest(profile.display_name, trace),
                None => script::fail(
                    trace,
                    PresentationError::Profile(crate::profiles::ProfileError::Malformed),
                ),
            }
        };
    assert forall|trace: Trace| #[trigger] stage(trace) == script::query(trace, op, going) by {}
    let rows = stages::asks_store(stage, op, going, replies, from, store, stages::anything());
    dashboard_laws::filtered(
        op,
        seq![("user_id"@, Relation::Equal, Datum::Text(user_id))],
        store,
    );
    let profiles = rows_of_user(store, "user_profiles"@, user_id);
    if rows.len() > 0 {
        model::shown_values(rows[0], profiles[0], "display_name"@);
    }
    let name = if rows.len() == 0 {
        username
    } else {
        crate::profiles::profile_row(rows[0])->0.display_name
    };
    let second: Workflow<T, PresentationError> = |trace: Trace| going(rows, trace);
    let next: Workflow<T, PresentationError> = |trace: Trace| rest(name, trace);
    assert(second =~= next);
    name
}

proof fn avatar_is_read<T>(
    stage: Workflow<T, PresentationError>,
    user_id: Seq<char>,
    rest: spec_fn(Option<Seq<char>>, Trace) -> Run<T, PresentationError>,
    replies: Seq<Reply>,
    from: int,
    store: Store,
) -> (url: Option<Seq<char>>)
    requires
        stages::underway(stage, replies, from, store, stages::anything()),
        stage(Trace { replies, at: from }).outcome is Done,
        forall|trace: Trace| #[trigger]
            stage(trace) == script::chain(presentation::avatar_run(trace, user_id), rest),
    ensures
        ({
            let pictures = rows_of_user(store, "user_profile_images"@, user_id);
            &&& pictures.len() == 0 ==> url is None
            &&& pictures.len() > 0 ==> (model::datum_in(
                pictures[0],
                "content_sha256"@,
            ) matches Datum::Text(hash) && url == Some(
                "/profiles/"@ + user_id + "/avatar/"@ + hash,
            ))
        }),
        stages::underway(
            |trace: Trace| rest(url, trace),
            replies,
            from + 1,
            store,
            stages::anything(),
        ),
        stage(Trace { replies, at: from }) == rest(url, Trace { replies, at: from + 1 }),
{
    let op = Op::select("user_profile_images"@).where_text("user_id"@, user_id);
    let going = |rows: Seq<Row>, trace: Trace|
        if rows.len() == 0 {
            rest(None, trace)
        } else {
            match rows[0].text_at("content_sha256"@) {
                Some(hash) => rest(Some(presentation::avatar_url_of(user_id, hash)), trace),
                None => script::fail(
                    trace,
                    PresentationError::Profile(crate::profiles::ProfileError::Malformed),
                ),
            }
        };
    assert forall|trace: Trace| #[trigger] stage(trace) == script::query(trace, op, going) by {}
    let rows = stages::asks_store(stage, op, going, replies, from, store, stages::anything());
    dashboard_laws::filtered(
        op,
        seq![("user_id"@, Relation::Equal, Datum::Text(user_id))],
        store,
    );
    let pictures = rows_of_user(store, "user_profile_images"@, user_id);
    if rows.len() > 0 {
        model::shown_values(rows[0], pictures[0], "content_sha256"@);
    }
    let url = if rows.len() == 0 {
        None
    } else {
        Some(presentation::avatar_url_of(user_id, rows[0].text_at("content_sha256"@)->0))
    };
    let second: Workflow<T, PresentationError> = |trace: Trace| going(rows, trace);
    let next: Workflow<T, PresentationError> = |trace: Trace| rest(url, trace);
    assert(second =~= next);
    url
}

proof fn other_user_is_found(
    rows: Seq<Row>,
    records: Seq<Record>,
    user_id: Seq<char>,
    from: int,
) -> (at: int)
    requires
        model::all_shown(rows, records),
        0 <= from <= rows.len(),
        presentation::other_user(rows.skip(from), user_id) is Some,
    ensures
        from <= at < records.len(),
        model::datum_in(records[at], "user_id"@) == Datum::Text(
            presentation::other_user(rows.skip(from), user_id)->0,
        ),
        held_by_another(records[at], user_id),
        forall|j: int| from <= j < at ==> !held_by_another(#[trigger] records[j], user_id),
    decreases rows.len() - from,
{
    let rest = rows.skip(from);
    assert(rest.len() > 0);
    assert(rest[0] == rows[from]);
    model::shown_values(rows[from], records[from], "user_id"@);
    if held_by_another(records[from], user_id) {
        from
    } else {
        assert(rest.skip(1) =~= rows.skip(from + 1));
        other_user_is_found(rows, records, user_id, from + 1)
    }
}

type People = (PersonView, PersonView);

spec fn with_addresses(
    viewer: (Seq<char>, Seq<char>, Option<Seq<char>>),
    opponent: (Seq<char>, Seq<char>),
) -> spec_fn(Option<Seq<char>>, Trace) -> Run<People, PresentationError> {
    |address: Option<Seq<char>>, trace: Trace|
        script::done(
            trace,
            (
                PersonView { username: viewer.0, display_name: viewer.1, avatar_url: viewer.2 },
                PersonView {
                    username: opponent.0,
                    display_name: opponent.1,
                    avatar_url: address,
                },
            ),
        )
}

spec fn with_address(
    other: Seq<char>,
    viewer: (Seq<char>, Seq<char>),
    opponent: (Seq<char>, Seq<char>),
) -> spec_fn(Option<Seq<char>>, Trace) -> Run<People, PresentationError> {
    |address: Option<Seq<char>>, trace: Trace|
        script::chain(
            presentation::avatar_run(trace, other),
            with_addresses((viewer.0, viewer.1, address), opponent),
        )
}

spec fn with_names(
    user_id: Seq<char>,
    other: Seq<char>,
    viewer: (Seq<char>, Seq<char>),
    opponent: Seq<char>,
) -> spec_fn(Seq<char>, Trace) -> Run<People, PresentationError> {
    |display_name: Seq<char>, trace: Trace|
        script::chain(
            presentation::avatar_run(trace, user_id),
            with_address(other, viewer, (opponent, display_name)),
        )
}

spec fn with_name(
    user_id: Seq<char>,
    viewer: Seq<char>,
    other: Seq<char>,
    opponent: Seq<char>,
) -> spec_fn(Seq<char>, Trace) -> Run<People, PresentationError> {
    |display_name: Seq<char>, trace: Trace|
        script::chain(
            presentation::display_name_run(trace, other, opponent),
            with_names(user_id, other, (viewer, display_name), opponent),
        )
}

proof fn faces_have_parts(
    trace: Trace,
    user_id: Seq<char>,
    viewer: Seq<char>,
    other: Seq<char>,
    opponent: Seq<char>,
)
    ensures
        presentation::faces_run(trace, user_id, viewer, other, opponent) == script::chain(
            presentation::display_name_run(trace, user_id, viewer),
            with_name(user_id, viewer, other, opponent),
        ),
{
    let named = presentation::display_name_run(trace, user_id, viewer);
    if let Outcome::Done(display_name) = named.outcome {
        let second = presentation::display_name_run(named.trace, other, opponent);
        if let Outcome::Done(other_name) = second.outcome {
            let third = presentation::avatar_run(second.trace, user_id);
        }
    }
}

proof fn faces_are_read(
    user_id: Seq<char>,
    viewer: Seq<char>,
    other: Seq<char>,
    opponent: Seq<char>,
    replies: Seq<Reply>,
    from: int,
    store: Store,
    people: People,
)
    requires
        stages::underway(
            |trace: Trace| presentation::faces_run(trace, user_id, viewer, other, opponent),
            replies,
            from,
            store,
            stages::anything(),
        ),
        presentation::faces_run(
            Trace { replies, at: from },
            user_id,
            viewer,
            other,
            opponent,
        ).outcome == Outcome::<People, PresentationError>::Done(people),
        dashboard_laws::display_name(store, user_id) == Some(viewer),
        dashboard_laws::display_name(store, other) == Some(opponent),
    ensures
        person_shown(people.0, store, user_id),
        person_shown(people.1, store, other),
{
    let stage: Workflow<People, PresentationError> = |trace: Trace|
        presentation::faces_run(trace, user_id, viewer, other, opponent);
    assert forall|trace: Trace| #[trigger] stage(trace) == script::chain(
        presentation::display_name_run(trace, user_id, viewer),
        with_name(user_id, viewer, other, opponent),
    ) by {
        faces_have_parts(trace, user_id, viewer, other, opponent);
    }
    let first = display_name_is_read(
        stage,
        user_id,
        viewer,
        with_name(user_id, viewer, other, opponent),
        replies,
        from,
        store,
    );
    let named: Workflow<People, PresentationError> = |trace: Trace|
        with_name(user_id, viewer, other, opponent)(first, trace);
    let second = display_name_is_read(
        named,
        other,
        opponent,
        with_names(user_id, other, (viewer, first), opponent),
        replies,
        from + 1,
        store,
    );
    let both: Workflow<People, PresentationError> = |trace: Trace|
        with_names(user_id, other, (viewer, first), opponent)(second, trace);
    let address = avatar_is_read(
        both,
        user_id,
        with_address(other, (viewer, first), (opponent, second)),
        replies,
        from + 2,
        store,
    );
    let last: Workflow<People, PresentationError> = |trace: Trace|
        with_address(other, (viewer, first), (opponent, second))(address, trace);
    avatar_is_read(
        last,
        other,
        with_addresses((viewer, first, address), (opponent, second)),
        replies,
        from + 3,
        store,
    );
}

spec fn with_opponent(
    user_id: Seq<char>,
    viewer: Seq<char>,
    other: Seq<char>,
) -> spec_fn(Seq<char>, Trace) -> Run<People, PresentationError> {
    |opponent: Seq<char>, trace: Trace|
        presentation::faces_run(trace, user_id, viewer, other, opponent)
}

spec fn with_seats(user_id: Seq<char>, viewer: Seq<char>) -> spec_fn(Seq<Row>, Trace) -> Run<
    People,
    PresentationError,
> {
    |rows: Seq<Row>, trace: Trace|
        match presentation::other_user(rows, user_id) {
            None => script::fail(trace, PresentationError::Malformed),
            Some(other) => script::chain(
                presentation::username_run(trace, other),
                with_opponent(user_id, viewer, other),
            ),
        }
}

spec fn with_viewer(game_id: GameId, user_id: Seq<char>) -> spec_fn(Seq<char>, Trace) -> Run<
    People,
    PresentationError,
> {
    |viewer: Seq<char>, trace: Trace|
        script::query(
            trace,
            Op::select("game_players"@).where_text("game_id"@, ids::id_text_of(game_id)),
            with_seats(user_id, viewer),
        )
}

proof fn people_have_parts(trace: Trace, game_id: GameId, user_id: Seq<char>)
    ensures
        presentation::people_run(trace, game_id, user_id) == script::chain(
            presentation::username_run(trace, user_id),
            with_viewer(game_id, user_id),
        ),
{
    let named = presentation::username_run(trace, user_id);
    if let Outcome::Done(viewer) = named.outcome {
        let going = |rows: Seq<Row>, trace: Trace|
            match presentation::other_user(rows, user_id) {
                None => script::fail(trace, PresentationError::Malformed),
                Some(other) => script::chain(
                    presentation::username_run(trace, other),
                    |opponent: Seq<char>, trace: Trace|
                        presentation::faces_run(trace, user_id, viewer, other, opponent),
                ),
            };
        assert forall|rows: Seq<Row>, trace: Trace| #[trigger] going(rows, trace) == with_seats(
            user_id,
            viewer,
        )(rows, trace) by {}
        assert(going =~= with_seats(user_id, viewer));
    }
}

/// The page of a game shows its viewer as stored, and as the opponent a user who holds another seat
/// of the game, as stored.
pub proof fn people_are_told_apart(
    game_id: GameId,
    user_id: Seq<char>,
    replies: Seq<Reply>,
    store: Store,
    viewer: PersonView,
    opponent: PersonView,
)
    requires
        model::served(loading_people(game_id, user_id), replies, store),
        model::ending(loading_people(game_id, user_id), replies) == Outcome::<
            (PersonView, PersonView),
            PresentationError,
        >::Done((viewer, opponent)),
    ensures
        person_shown(viewer, store, user_id),
        exists|other: Seq<char>| #[trigger]
            opposes(store, game_id, user_id, other) && person_shown(opponent, store, other),
{
    let fits = stages::anything();
    let workflow = loading_people(game_id, user_id);
    stages::whole_is_underway(workflow, replies, store, fits);
    assert forall|trace: Trace| #[trigger] workflow(trace) == script::chain(
        presentation::username_run(trace, user_id),
        with_viewer(game_id, user_id),
    ) by {
        people_have_parts(trace, game_id, user_id);
    }
    let name = name_is_read(workflow, user_id, with_viewer(game_id, user_id), replies, 0, store);
    let second: Workflow<People, PresentationError> = |trace: Trace|
        with_viewer(game_id, user_id)(name, trace);
    let op = Op::select("game_players"@).where_text("game_id"@, ids::id_text_of(game_id));
    let rows = stages::asks_store(
        second,
        op,
        with_seats(user_id, name),
        replies,
        1,
        store,
        fits,
    );
    dashboard_laws::filtered(
        op,
        seq![("game_id"@, Relation::Equal, Datum::Text(ids::id_text_of(game_id)))],
        store,
    );
    let held = seats(store, game_id);
    let third: Workflow<People, PresentationError> = |trace: Trace|
        with_seats(user_id, name)(rows, trace);
    assert(third(Trace { replies, at: 2 }).outcome is Done);
    assert(rows.skip(0) =~= rows);
    let at = other_user_is_found(rows, held, user_id, 0);
    let other = presentation::other_user(rows, user_id)->0;
    let other_name = name_is_read(
        third,
        other,
        with_opponent(user_id, name, other),
        replies,
        2,
        store,
    );
    let last: Workflow<People, PresentationError> = |trace: Trace|
        with_opponent(user_id, name, other)(other_name, trace);
    let faces: Workflow<People, PresentationError> = |trace: Trace|
        presentation::faces_run(trace, user_id, name, other, other_name);
    assert(last =~= faces);
    faces_are_read(user_id, name, other, other_name, replies, 3, store, (viewer, opponent));
    assert(model::datum_in(held[at], "user_id"@) == Datum::Text(other));
    assert(opposes(store, game_id, user_id, other));
}

/// Loading the score totals of a user.
pub open spec fn loading_totals(user_id: Seq<char>) -> Workflow<
    Option<TotalsView>,
    ProjectionError,
> {
    |trace: Trace| projections::user_score_totals_run(trace, user_id)
}

/// The score totals that are loaded are the stored ones, and there are none where none are stored.
pub proof fn totals_are_read(
    user_id: Seq<char>,
    replies: Seq<Reply>,
    store: Store,
    totals: Option<TotalsView>,
)
    requires
        model::served(loading_totals(user_id), replies, store),
        model::ending(loading_totals(user_id), replies) == Outcome::<
            Option<TotalsView>,
            ProjectionError,
        >::Done(totals),
    ensures
        totals is None <==> rows_of_user(store, "user_score_totals"@, user_id).len() == 0,
        totals matches Some(totals) ==> ({
            let row = rows_of_user(store, "user_score_totals"@, user_id)[0];
            &&& totals.user_id == user_id
            &&& model::datum_in(row, "completed_games"@) == Datum::Integer(
                totals.completed_games as int,
            )
            &&& model::datum_in(row, "wins"@) == Datum::Integer(totals.wins as int)
            &&& model::datum_in(row, "ties"@) == Datum::Integer(totals.ties as int)
            &&& model::datum_in(row, "total_score"@) == Datum::Integer(totals.total_score as int)
        }),
{
    let fits = stages::anything();
    let workflow = loading_totals(user_id);
    stages::whole_is_underway(workflow, replies, store, fits);
    let op = Op::select("user_score_totals"@).where_text("user_id"@, user_id);
    let going = |rows: Seq<Row>, trace: Trace|
        if rows.len() == 0 {
            script::done(trace, None)
        } else {
            match projections::totals_row(rows[0]) {
                Some(totals) => script::done(trace, Some(totals)),
                None => script::fail(trace, ProjectionError::Malformed),
            }
        };
    assert forall|trace: Trace| #[trigger] workflow(trace) == script::query(trace, op, going) by {}
    let rows = stages::asks_store(workflow, op, going, replies, 0, store, fits);
    let filters = seq![("user_id"@, Relation::Equal, Datum::Text(user_id))];
    dashboard_laws::filtered(op, filters, store);
    let held = rows_of_user(store, "user_score_totals"@, user_id);
    if rows.len() > 0 {
        model::found_rows(store.rows("user_score_totals"@), filters);
        assert(model::meets_all(held[0], filters));
        assert(model::meets(held[0], filters[0]));
        model::shown_values(rows[0], held[0], "user_id"@);
        model::shown_values(rows[0], held[0], "completed_games"@);
        model::shown_values(rows[0], held[0], "wins"@);
        model::shown_values(rows[0], held[0], "ties"@);
        model::shown_values(rows[0], held[0], "total_score"@);
    }
}

/// Whether the dashboard of a signed-in user is made of what the session, the user's rows, the
/// dashboard and the totals gave, each of them of this one user.
pub open spec fn signed_in_of(
    view: SignedInView,
    session: Option<Seq<char>>,
    now: Timestamp,
    parts: Seq<Trace>,
) -> bool {
    &&& parts.len() == 6
    &&& presentation::authenticated_user_run(parts[0], session, now).outcome == Outcome::<
        Seq<char>,
        PresentationError,
    >::Done(view.user_id)
    &&& presentation::username_run(parts[1], view.user_id).outcome == Outcome::<
        Seq<char>,
        PresentationError,
    >::Done(view.username)
    &&& presentation::display_name_run(parts[2], view.user_id, view.username).outcome == Outcome::<
        Seq<char>,
        PresentationError,
    >::Done(view.display_name)
    &&& presentation::avatar_run(parts[3], view.user_id).outcome == Outcome::<
        Option<Seq<char>>,
        PresentationError,
    >::Done(view.avatar_url)
    &&& dashboard::dashboard_run(parts[4], view.user_id).outcome == Outcome::<
        (Seq<PendingView>, Seq<SummaryView>),
        ProjectionError,
    >::Done((view.pending, view.games))
    &&& projections::user_score_totals_run(parts[5], view.user_id).outcome == Outcome::<
        Option<TotalsView>,
        ProjectionError,
    >::Done(view.score_totals)
}

/// A signed-in user is shown their own dashboard: everything on it is loaded for the user of the
/// session.
pub proof fn dashboards_are_their_users(
    trace: Trace,
    session: Option<Seq<char>>,
    now: Timestamp,
    view: SignedInView,
)
    requires
        presentation::signed_in_run(trace, session, now).outcome == Outcome::<
            SignedInView,
            PresentationError,
        >::Done(view),
    ensures
        exists|parts: Seq<Trace>| #[trigger] signed_in_of(view, session, now, parts),
{
    let first = presentation::authenticated_user_run(trace, session, now);
    let user_id = first.outcome->Done_0;
    let second = presentation::username_run(first.trace, user_id);
    let username = second.outcome->Done_0;
    let third = presentation::display_name_run(second.trace, user_id, username);
    let fourth = presentation::avatar_run(third.trace, user_id);
    let fifth = dashboard::dashboard_run(fourth.trace, user_id);
    let sixth = projections::user_score_totals_run(fifth.trace, user_id);
    let parts = seq![
        trace,
        first.trace,
        second.trace,
        third.trace,
        fourth.trace,
        fifth.trace,
    ];
    assert(sixth.outcome is Done);
    assert(signed_in_of(view, session, now, parts));
}

/// A request is made by the user of its session: one without a session, or whose session is
/// nobody's, is refused.
pub proof fn sessions_name_their_user(trace: Trace, session: Option<Seq<char>>, now: Timestamp)
    ensures
        session is None ==> presentation::authenticated_user_run(trace, session, now).outcome
            == Outcome::<Seq<char>, PresentationError>::Fail(PresentationError::Unauthenticated),
        trace.spent() ==> (session matches Some(token) ==> presentation::authenticated_user_run(
            trace,
            session,
            now,
        ).outcome == Outcome::<Seq<char>, PresentationError>::Wait(
            Ask::ResolveSession(token, now),
        )),
        session is Some && !trace.spent() ==> (trace.reply() matches Reply::Text(user)
            ==> presentation::authenticated_user_run(trace, session, now).outcome == Outcome::<
            Seq<char>,
            PresentationError,
        >::Done(user@)),
        session is Some && !trace.spent() && trace.reply() is Refused
            ==> presentation::authenticated_user_run(trace, session, now).outcome == Outcome::<
            Seq<char>,
            PresentationError,
        >::Fail(PresentationError::Unauthenticated),
{
}

/// A cookie's value is that of the first cookie of its name.
pub proof fn first_cookies_count(cookies: Seq<(String, String)>, name: Seq<char>)
    ensures
        (forall|i: int| 0 <= i < cookies.len() ==> (#[trigger] cookies[i]).0@ != name)
            ==> presentation::cookie_of(cookies, name) is None,
        forall|at: int|
            0 <= at < cookies.len() && (#[trigger] cookies[at]).0@ == name && (forall|i: int|
                0 <= i < at ==> (#[trigger] cookies[i]).0@ != name) ==> presentation::cookie_of(
                cookies,
                name,
            ) == Some(cookies[at].1@),
    decreases cookies.len(),
{
    if cookies.len() > 0 {
        let rest = cookies.skip(1);
        first_cookies_count(rest, name);
        if forall|i: int| 0 <= i < cookies.len() ==> (#[trigger] cookies[i]).0@ != name {
            assert(cookies[0].0@ != name);
            assert forall|i: int| 0 <= i < rest.len() implies (#[trigger] rest[i]).0@ != name by {
                assert(rest[i] == cookies[i + 1]);
            }
        }
        assert forall|at: int|
            0 <= at < cookies.len() && (#[trigger] cookies[at]).0@ == name && (forall|i: int|
                0 <= i < at ==> (#[trigger] cookies[i]).0@
                    != name) implies presentation::cookie_of(cookies, name) == Some(
            cookies[at].1@,
        ) by {
            if at > 0 {
                assert(cookies[0].0@ != name);
                assert(rest[at - 1] == cookies[at]);
                assert forall|i: int| 0 <= i < at - 1 implies (#[trigger] rest[i]).0@ != name by {
                    assert(rest[i] == cookies[i + 1]);
                }
            }
        }
    }
}

} // verus!
