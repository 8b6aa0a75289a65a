//! What the profiles hold: who owns a name or an avatar, and what a change leaves as it was.
use crate::avatars::ImageView;
use crate::game::{self, Timestamp};
use crate::model::{self, Record, Store, Workflow};
use crate::profiles::{self, AvatarSource, ProfileError, ProfileFieldSource, ProfileView};
use crate::script::{self, Outcome, Reply, Run, Trace};
use crate::stages;
use crate::store::{self, Datum, Op, Relation, Row, Verb};
use vstd::prelude::*;

verus! {

/// Whether a row is of a user.
pub open spec fn of_user(record: Record, user_id: Seq<char>) -> bool {
    model::datum_in(record, "user_id"@) == Datum::Text(user_id)
}

/// A workflow of one statement leaves what the statement leaves.
pub proof fn one_statement_leaves<T, E>(
    stage: Workflow<T, E>,
    op: Op,
    rest: spec_fn(Seq<Row>, Trace) -> Run<T, E>,
    replies: Seq<Reply>,
    store: Store,
)
    requires
        forall|trace: Trace| #[trigger] stage(trace) == script::query(trace, op, rest),
        forall|rows: Seq<Row>, trace: Trace| !((#[trigger] rest(rows, trace)).outcome is Wait),
        model::served(stage, replies, store),
        model::ending(stage, replies) is Done,
    ensures
        model::store_after(stage, replies, store) == model::executed(store, op).0,
{
    let fits = stages::anything();
    stages::whole_is_underway(stage, replies, store, fits);
    stages::whole_leaves(stage, replies, store);
    let rows = stages::asks_store(stage, op, rest, replies, 0, store, fits);
    let second: Workflow<T, E> = |trace: Trace| rest(rows, trace);
    let after = model::executed(store, op).0;
    assert forall|trace: Trace| !((#[trigger] second(trace)).outcome is Wait) by {
        assert(second(trace) == rest(rows, trace));
    }
    stages::nothing_more(second, replies, 1, after, replies.len() as int);
}

proof fn profile_columns_differ()
    ensures
        "user_id"@ != "display_name"@,
        "user_id"@ != "display_name_source"@,
        "user_id"@ != "avatar_source"@,
        "user_id"@ != "provider_picture_url"@,
        "user_id"@ != "provider_picture_checked_at_ms"@,
        "user_id"@ != "updated_at_ms"@,
        "display_name"@ != "display_name_source"@,
        "display_name"@ != "avatar_source"@,
        "display_name"@ != "provider_picture_url"@,
        "display_name"@ != "provider_picture_checked_at_ms"@,
        "display_name"@ != "updated_at_ms"@,
        "display_name_source"@ != "avatar_source"@,
        "display_name_source"@ != "provider_picture_url"@,
        "display_name_source"@ != "provider_picture_checked_at_ms"@,
        "display_name_source"@ != "updated_at_ms"@,
        "avatar_source"@ != "provider_picture_url"@,
        "avatar_source"@ != "provider_picture_checked_at_ms"@,
        "avatar_source"@ != "updated_at_ms"@,
        "provider_picture_url"@ != "provider_picture_checked_at_ms"@,
        "provider_picture_url"@ != "updated_at_ms"@,
        "provider_picture_checked_at_ms"@ != "updated_at_ms"@,
{
    reveal_strlit("user_id");
    reveal_strlit("display_name");
    reveal_strlit("display_name_source");
    reveal_strlit("avatar_source");
    reveal_strlit("provider_picture_url");
    reveal_strlit("provider_picture_checked_at_ms");
    reveal_strlit("updated_at_ms");
    assert("user_id"@.len() == 7);
    assert("display_name"@.len() == 12);
    assert("display_name_source"@.len() == 19);
    assert("avatar_source"@.len() == 13 && "avatar_source"@[0] == 'a');
    assert("provider_picture_url"@.len() == 20);
    assert("provider_picture_checked_at_ms"@.len() == 30);
    assert("updated_at_ms"@.len() == 13 && "updated_at_ms"@[0] == 'u');
}

/// Whether the name in a profile, and who owns it, stayed as they were.
pub open spec fn name_kept(before: Record, after: Record) -> bool {
    &&& model::datum_in(after, "display_name"@) == model::datum_in(before, "display_name"@)
    &&& model::datum_in(after, "display_name_source"@) == model::datum_in(
        before,
        "display_name_source"@,
    )
}

/// Whether the avatar of a profile, and who owns it, stayed as they were.
pub open spec fn avatar_kept(before: Record, after: Record) -> bool {
    &&& model::datum_in(after, "avatar_source"@) == model::datum_in(before, "avatar_source"@)
    &&& model::datum_in(after, "provider_picture_url"@) == model::datum_in(
        before,
        "provider_picture_url"@,
    )
    &&& model::datum_in(after, "provider_picture_checked_at_ms"@) == model::datum_in(
        before,
        "provider_picture_checked_at_ms"@,
    )
}

/// Whether each profile of a user was changed in a way, and no other row was touched.
pub open spec fn profile_changed(
    before: Store,
    after: Store,
    user_id: Seq<char>,
    way: spec_fn(Record, Record) -> bool,
) -> bool {
    let rows = before.rows("user_profiles"@);
    let changed = after.rows("user_profiles"@);
    &&& changed.len() == rows.len()
    &&& forall|i: int|
        0 <= i < rows.len() ==> of_user(#[trigger] changed[i], user_id) == of_user(
            rows[i],
            user_id,
        ) && (if of_user(rows[i], user_id) {
            way(rows[i], changed[i])
        } else {
            changed[i] == rows[i]
        })
    &&& forall|table: Seq<char>|
        table != "user_profiles"@ ==> #[trigger] after.rows(table) == before.rows(table)
}

/// Replacing a display name.
pub open spec fn renaming(user_id: Seq<char>, name: Seq<char>, now: Timestamp) -> Workflow<
    (),
    ProfileError,
> {
    |trace: Trace| profiles::rename_run(trace, user_id, name, now)
}

/// Letting a display name follow the provider again.
pub open spec fn following_name(user_id: Seq<char>, now: Timestamp) -> Workflow<(), ProfileError> {
    |trace: Trace| profiles::follow_name_run(trace, user_id, now)
}

/// Letting an avatar follow the provider again.
pub open spec fn following_avatar(user_id: Seq<char>, now: Timestamp) -> Workflow<
    (),
    ProfileError,
> {
    |trace: Trace| profiles::follow_avatar_run(trace, user_id, now)
}

proof fn change_leaves(
    stage: Workflow<(), ProfileError>,
    changes: Op,
    user_id: Seq<char>,
    now: Timestamp,
    replies: Seq<Reply>,
    store: Store,
)
    requires
        forall|trace: Trace| #[trigger]
            stage(trace) == profiles::change_profile_run(trace, changes, user_id, now),
        changes.verb == Verb::Update,
        changes.table == "user_profiles"@,
        changes.filters.len() == 0,
        model::served(stage, replies, store),
        model::ending(stage, replies) is Done,
    ensures
        game::millis_at(now) is Some,
        model::store_after(stage, replies, store) == store.with_rows(
            "user_profiles"@,
            model::updated(
                store.rows("user_profiles"@),
                seq![("user_id"@, Relation::Equal, Datum::Text(user_id))],
                changes.values.push(
                    ("updated_at_ms"@, Datum::Integer(game::millis_at(now)->0 as int)),
                ),
            ),
        ),
{
    assert(replies.take(replies.len() as int) =~= replies);
    assert(stage(Trace { replies, at: 0 }) == profiles::change_profile_run(
        Trace { replies, at: 0 },
        changes,
        user_id,
        now,
    ));
    let now_ms = game::millis_at(now)->0;
    let op = changes.integer("updated_at_ms"@, now_ms as int).where_text("user_id"@, user_id);
    let rest = |rows: Seq<Row>, trace: Trace| script::done::<(), ProfileError>(trace, ());
    assert forall|trace: Trace| #[trigger] stage(trace) == script::query(trace, op, rest) by {
        assert(stage(trace) == profiles::change_profile_run(trace, changes, user_id, now));
    }
    one_statement_leaves(stage, op, rest, replies, store);
    assert(op.filters =~= seq![("user_id"@, Relation::Equal, Datum::Text(user_id))]);
    assert(op.values =~= changes.values.push(
        ("updated_at_ms"@, Datum::Integer(now_ms as int)),
    ));
}

/// A row is found by a user's identity exactly where it is of the user.
pub proof fn meets_user(record: Record, user_id: Seq<char>)
    ensures
        model::meets_all(
            record,
            seq![("user_id"@, Relation::Equal, Datum::Text(user_id))],
        ) <==> of_user(record, user_id),
{
    let filters = seq![("user_id"@, Relation::Equal, Datum::Text(user_id))];
    assert(model::meets(record, filters[0]) <==> of_user(record, user_id));
    if of_user(record, user_id) {
        assert(model::meets_all(record, filters));
    }
    if model::meets_all(record, filters) {
        assert(model::meets(record, filters[0]));
    }
}

/// A display name of the user's own is shown from then on, normalized, and is the user's; the
/// avatar stays as it was.
pub proof fn own_names_are_shown(
    user_id: Seq<char>,
    name: Seq<char>,
    now: Timestamp,
    replies: Seq<Reply>,
    store: Store,
)
    requires
        model::served(renaming(user_id, name, now), replies, store),
        model::ending(renaming(user_id, name, now), replies) is Done,
    ensures
        profiles::normalized_display_name(name) is Some,
        profile_changed(
            store,
            model::store_after(renaming(user_id, name, now), replies, store),
            user_id,
            |before: Record, after: Record|
                avatar_kept(before, after) && model::datum_in(after, "display_name"@)
                    == Datum::Text(profiles::normalized_display_name(name)->0) && model::datum_in(
                    after,
                    "display_name_source"@,
                ) == Datum::Text("CUSTOM"@),
        ),
{
    let stage = renaming(user_id, name, now);
    assert(replies.take(replies.len() as int) =~= replies);
    assert(stage(Trace { replies, at: 0 }).outcome is Done);
    let shown = profiles::normalized_display_name(name)->0;
    let changes = Op::update("user_profiles"@).text("display_name"@, shown).text(
        "display_name_source"@,
        ProfileFieldSource::Custom.name(),
    );
    change_leaves(stage, changes, user_id, now, replies, store);
    let values = changes.values.push(
        ("updated_at_ms"@, Datum::Integer(game::millis_at(now)->0 as int)),
    );
    assert(values.len() == 3);
    profile_columns_differ();
    assert forall|i: int| 0 <= i < store.rows("user_profiles"@).len() implies ({
        let row = #[trigger] store.rows("user_profiles"@)[i];
        let after = model::assigned(row, values);
        &&& model::datum_in(after, "display_name"@) == Datum::Text(shown)
        &&& model::datum_in(after, "display_name_source"@) == Datum::Text("CUSTOM"@)
        &&& avatar_kept(row, after)
        &&& of_user(after, user_id) == of_user(row, user_id)
        &&& model::meets_all(
            row,
            seq![("user_id"@, Relation::Equal, Datum::Text(user_id))],
        ) <==> of_user(row, user_id)
    }) by {
        let row = store.rows("user_profiles"@)[i];
        meets_user(row, user_id);
        model::assigned_sets(row, values, 0);
        model::assigned_sets(row, values, 1);
        model::assigned_keeps(row, values, "user_id"@);
        model::assigned_keeps(row, values, "avatar_source"@);
        model::assigned_keeps(row, values, "provider_picture_url"@);
        model::assigned_keeps(row, values, "provider_picture_checked_at_ms"@);
    }
}

/// A display name that follows the provider again is the provider's; what is shown stays until the
/// next login.
pub proof fn followed_names_are_the_providers(
    user_id: Seq<char>,
    now: Timestamp,
    replies: Seq<Reply>,
    store: Store,
)
    requires
        model::served(following_name(user_id, now), replies, store),
        model::ending(following_name(user_id, now), replies) is Done,
    ensures
        profile_changed(
            store,
            model::store_after(following_name(user_id, now), replies, store),
            user_id,
            |before: Record, after: Record|
                avatar_kept(before, after) && model::datum_in(after, "display_name"@)
                    == model::datum_in(before, "display_name"@) && model::datum_in(
                    after,
                    "display_name_source"@,
                ) == Datum::Text("GOOGLE"@),
        ),
{
    let stage = following_name(user_id, now);
    let changes = Op::update("user_profiles"@).text(
        "display_name_source"@,
        ProfileFieldSource::Google.name(),
    );
    change_leaves(stage, changes, user_id, now, replies, store);
    let values = changes.values.push(
        ("updated_at_ms"@, Datum::Integer(game::millis_at(now)->0 as int)),
    );
    assert(values.len() == 2);
    profile_columns_differ();
    assert forall|i: int| 0 <= i < store.rows("user_profiles"@).len() implies ({
        let row = #[trigger] store.rows("user_profiles"@)[i];
        let after = model::assigned(row, values);
        &&& model::datum_in(after, "display_name"@) == model::datum_in(row, "display_name"@)
        &&& model::datum_in(after, "display_name_source"@) == Datum::Text("GOOGLE"@)
        &&& avatar_kept(row, after)
        &&& of_user(after, user_id) == of_user(row, user_id)
        &&& model::meets_all(
            row,
            seq![("user_id"@, Relation::Equal, Datum::Text(user_id))],
        ) <==> of_user(row, user_id)
    }) by {
        let row = store.rows("user_profiles"@)[i];
        meets_user(row, user_id);
        model::assigned_sets(row, values, 0);
        model::assigned_keeps(row, values, "user_id"@);
        model::assigned_keeps(row, values, "display_name"@);
        model::assigned_keeps(row, values, "avatar_source"@);
        model::assigned_keeps(row, values, "provider_picture_url"@);
        model::assigned_keeps(row, values, "provider_picture_checked_at_ms"@);
    }
}

/// An avatar that follows the provider again is the provider's and is looked at anew at the next
/// login; the name stays as it was.
pub proof fn followed_avatars_are_the_providers(
    user_id: Seq<char>,
    now: Timestamp,
    replies: Seq<Reply>,
    store: Store,
)
    requires
        model::served(following_avatar(user_id, now), replies, store),
        model::ending(following_avatar(user_id, now), replies) is Done,
    ensures
        profile_changed(
            store,
            model::store_after(following_avatar(user_id, now), replies, store),
            user_id,
            |before: Record, after: Record|
                name_kept(before, after) && model::datum_in(after, "provider_picture_url"@)
                    == model::datum_in(before, "provider_picture_url"@) && model::datum_in(
                    after,
                    "avatar_source"@,
                ) == Datum::Text("GOOGLE"@) && model::datum_in(
                    after,
                    "provider_picture_checked_at_ms"@,
                ) is Null,
        ),
{
    let stage = following_avatar(user_id, now);
    let changes = Op::update("user_profiles"@).text(
        "avatar_source"@,
        AvatarSource::Google.name(),
    ).value("provider_picture_checked_at_ms"@, Datum::Null);
    change_leaves(stage, changes, user_id, now, replies, store);
    let values = changes.values.push(
        ("updated_at_ms"@, Datum::Integer(game::millis_at(now)->0 as int)),
    );
    assert(values.len() == 3);
    profile_columns_differ();
    assert forall|i: int| 0 <= i < store.rows("user_profiles"@).len() implies ({
        let row = #[trigger] store.rows("user_profiles"@)[i];
        let after = model::assigned(row, values);
        &&& name_kept(row, after)
        &&& model::datum_in(after, "provider_picture_url"@) == model::datum_in(
            row,
            "provider_picture_url"@,
        )
        &&& model::datum_in(after, "avatar_source"@) == Datum::Text("GOOGLE"@)
        &&& model::datum_in(after, "provider_picture_checked_at_ms"@) is Null
        &&& of_user(after, user_id) == of_user(row, user_id)
        &&& model::meets_all(
            row,
            seq![("user_id"@, Relation::Equal, Datum::Text(user_id))],
        ) <==> of_user(row, user_id)
    }) by {
        let row = store.rows("user_profiles"@)[i];
        meets_user(row, user_id);
        model::assigned_sets(row, values, 0);
        model::assigned_sets(row, values, 1);
        model::assigned_keeps(row, values, "user_id"@);
        model::assigned_keeps(row, values, "display_name"@);
        model::assigned_keeps(row, values, "display_name_source"@);
        model::assigned_keeps(row, values, "provider_picture_url"@);
    }
}

/// Making the first profile of a user.
pub open spec fn introducing(
    user_id: Seq<char>,
    name: Seq<char>,
    picture: Option<Seq<char>>,
    now: Timestamp,
) -> Workflow<(), ProfileError> {
    |trace: Trace| profiles::create_profile_run(trace, user_id, name, picture, now)
}

/// Whether a row is a profile whose name and avatar are the provider's.
pub open spec fn provided_profile(
    record: Record,
    user_id: Seq<char>,
    name: Seq<char>,
    picture: Option<Seq<char>>,
) -> bool {
    &&& of_user(record, user_id)
    &&& model::datum_in(record, "display_name"@) == Datum::Text(name)
    &&& model::datum_in(record, "display_name_source"@) == Datum::Text("GOOGLE"@)
    &&& model::datum_in(record, "avatar_source"@) == Datum::Text("GOOGLE"@)
    &&& model::datum_in(record, "provider_picture_url"@) == (match picture {
        Some(url) => Datum::Text(url),
        None => Datum::Null,
    })
    &&& model::datum_in(record, "provider_picture_checked_at_ms"@) is Null
}

/// The first profile of a user shows the provider's name, normalized, and follows the provider.
pub proof fn first_profiles_are_the_providers(
    user_id: Seq<char>,
    name: Seq<char>,
    picture: Option<Seq<char>>,
    now: Timestamp,
    replies: Seq<Reply>,
    store: Store,
)
    requires
        model::served(introducing(user_id, name, picture, now), replies, store),
        model::ending(introducing(user_id, name, picture, now), replies) is Done,
    ensures
        profiles::normalized_display_name(name) is Some,
        exists|row: Record| #[trigger]
            provided_profile(
                row,
                user_id,
                profiles::normalized_display_name(name)->0,
                picture,
            ) && model::store_after(introducing(user_id, name, picture, now), replies, store)
                == store.with_rows("user_profiles"@, store.rows("user_profiles"@).push(row)),
{
    let stage = introducing(user_id, name, picture, now);
    assert(replies.take(replies.len() as int) =~= replies);
    assert(stage(Trace { replies, at: 0 }).outcome is Done);
    let shown = profiles::normalized_display_name(name)->0;
    let op = profiles::insert_profile_op(user_id, shown, picture, game::millis_at(now)->0);
    let rest = |rows: Seq<Row>, trace: Trace| script::done::<(), ProfileError>(trace, ());
    assert forall|trace: Trace| #[trigger] stage(trace) == script::query(trace, op, rest) by {}
    one_statement_leaves(stage, op, rest, replies, store);
    profile_columns_differ();
    let values = op.values;
    assert(values.len() == 7);
    model::assigned_sets(Map::empty(), values, 0);
    model::assigned_sets(Map::empty(), values, 1);
    model::assigned_sets(Map::empty(), values, 2);
    model::assigned_sets(Map::empty(), values, 3);
    model::assigned_sets(Map::empty(), values, 4);
    model::assigned_sets(Map::empty(), values, 5);
    let row = model::assigned(Map::empty(), values);
    assert(provided_profile(row, user_id, shown, picture));
}

/// What a synchronized profile writes: the provider's name where the provider owns the name, the
/// provider's picture where the provider owns the avatar, and nothing of what the user owns.
pub proof fn provided_fields_are_synchronized(
    profile: ProfileView,
    user_id: Seq<char>,
    name: Seq<char>,
    picture: Option<Seq<char>>,
    now_ms: i64,
    row: Record,
)
    ensures
        ({
            let op = profiles::synchronize_op(profile, user_id, name, picture, now_ms);
            let after = model::assigned(row, op.values);
            &&& op.verb == Verb::Update
            &&& op.table == "user_profiles"@
            &&& op.filters == seq![("user_id"@, Relation::Equal, Datum::Text(user_id))]
            &&& model::datum_in(after, "display_name"@) == (match profile.display_name_source {
                ProfileFieldSource::Google => Datum::Text(name),
                ProfileFieldSource::Custom => model::datum_in(row, "display_name"@),
            })
            &&& model::datum_in(after, "provider_picture_url"@) == (match profile.avatar_source {
                AvatarSource::Google => match picture {
                    Some(url) => Datum::Text(url),
                    None => Datum::Null,
                },
                _ => model::datum_in(row, "provider_picture_url"@),
            })
            &&& model::datum_in(after, "display_name_source"@) == model::datum_in(
                row,
                "display_name_source"@,
            )
            &&& model::datum_in(after, "avatar_source"@) == model::datum_in(row, "avatar_source"@)
        }),
{
    let op = profiles::synchronize_op(profile, user_id, name, picture, now_ms);
    let values = op.values;
    profile_columns_differ();
    assert(op.filters =~= seq![("user_id"@, Relation::Equal, Datum::Text(user_id))]);
    model::assigned_keeps(row, values, "display_name_source"@);
    model::assigned_keeps(row, values, "avatar_source"@);
    if profile.display_name_source == ProfileFieldSource::Google {
        assert(values[1] == ("display_name"@, Datum::Text(name)));
        model::assigned_sets(row, values, 1);
    } else {
        model::assigned_keeps(row, values, "display_name"@);
    }
    if profile.avatar_source == AvatarSource::Google {
        assert(values.last().0 == "provider_picture_url"@);
        model::assigned_sets(row, values, values.len() - 1);
    } else {
        model::assigned_keeps(row, values, "provider_picture_url"@);
    }
}

/// Storing a picture of the user's own.
pub open spec fn picturing(
    user_id: Seq<char>,
    normalized: Result<ImageView, ProfileError>,
    now: Timestamp,
) -> Workflow<ImageView, ProfileError> {
    |trace: Trace| profiles::set_custom_avatar_run(trace, user_id, normalized, now)
}

/// A picture of the user's own is the user's from then on: every profile of the user says so, and no
/// other profile is touched; the picture that was normalized is the one that is answered with.
pub proof fn own_pictures_are_the_users(
    user_id: Seq<char>,
    normalized: Result<ImageView, ProfileError>,
    now: Timestamp,
    replies: Seq<Reply>,
    store: Store,
    stored: ImageView,
)
    requires
        model::served(picturing(user_id, normalized, now), replies, store),
        model::ending(picturing(user_id, normalized, now), replies) == Outcome::<
            ImageView,
            ProfileError,
        >::Done(stored),
    ensures
        normalized == Ok::<ImageView, ProfileError>(stored),
        ({
            let rows = store.rows("user_profiles"@);
            let done = model::store_after(picturing(user_id, normalized, now), replies, store);
            let changed = done.rows("user_profiles"@);
            &&& changed.len() == rows.len()
            &&& forall|i: int|
                0 <= i < rows.len() ==> (if of_user(rows[i], user_id) {
                    model::datum_in(#[trigger] changed[i], "avatar_source"@) == Datum::Text(
                        "CUSTOM"@,
                    ) && name_kept(rows[i], changed[i])
                } else {
                    changed[i] == rows[i]
                })
            &&& forall|table: Seq<char>|
                table != "user_profiles"@ && table != "user_profile_images"@
                    ==> #[trigger] done.rows(table) == store.rows(table)
        }),
{
    let fits = stages::anything();
    let stage = picturing(user_id, normalized, now);
    stages::whole_is_underway(stage, replies, store, fits);
    stages::whole_leaves(stage, replies, store);
    assert(stage(Trace { replies, at: 0 }).outcome is Done);
    let image = normalized->Ok_0;
    let now_ms = game::millis_at(now)->0;
    let image_op = profiles::store_image_op(user_id, image, now_ms);
    let own_op = profiles::own_avatar_op(user_id, AvatarSource::Custom, now_ms);
    let finish = |rows: Seq<Row>, trace: Trace|
        script::done::<ImageView, ProfileError>(trace, image);
    let commit = |rows: Seq<Row>, trace: Trace| script::query(trace, Op::commit(), finish);
    let own = |rows: Seq<Row>, trace: Trace| script::query(trace, own_op, commit);
    let begin = |rows: Seq<Row>, trace: Trace| script::query(trace, image_op, own);
    assert forall|trace: Trace| #[trigger] stage(trace) == script::query(
        trace,
        Op::begin(),
        begin,
    ) by {}
    let first = stages::asks_store(stage, Op::begin(), begin, replies, 0, store, fits);
    let begun = model::executed(store, Op::begin()).0;
    let second: Workflow<ImageView, ProfileError> = |trace: Trace| begin(first, trace);
    let pictured = stages::asks_store(second, image_op, own, replies, 1, begun, fits);
    let held = model::executed(begun, image_op).0;
    let third: Workflow<ImageView, ProfileError> = |trace: Trace| own(pictured, trace);
    let owned = stages::asks_store(third, own_op, commit, replies, 2, held, fits);
    let changed = model::executed(held, own_op).0;
    let fourth: Workflow<ImageView, ProfileError> = |trace: Trace| commit(owned, trace);
    let done = stages::asks_store(fourth, Op::commit(), finish, replies, 3, changed, fits);
    let last: Workflow<ImageView, ProfileError> = |trace: Trace| finish(done, trace);
    let after = model::executed(changed, Op::commit()).0;
    stages::nothing_more(last, replies, 4, after, replies.len() as int);
    reveal_strlit("user_profiles");
    reveal_strlit("user_profile_images");
    assert("user_profiles"@.len() == 13);
    assert("user_profile_images"@.len() == 19);
    let rows = store.rows("user_profiles"@);
    assert(held.rows("user_profiles"@) == rows);
    let filters = seq![("user_id"@, Relation::Equal, Datum::Text(user_id))];
    assert(own_op.filters =~= filters);
    let values = own_op.values;
    assert(values.len() == 3);
    profile_columns_differ();
    assert(after.rows("user_profiles"@) == model::updated(rows, filters, values));
    assert forall|i: int| 0 <= i < rows.len() implies (if of_user(rows[i], user_id) {
        model::datum_in(#[trigger] after.rows("user_profiles"@)[i], "avatar_source"@)
            == Datum::Text("CUSTOM"@) && name_kept(rows[i], after.rows("user_profiles"@)[i])
    } else {
        after.rows("user_profiles"@)[i] == rows[i]
    }) by {
        meets_user(rows[i], user_id);
        model::assigned_sets(rows[i], values, 0);
        model::assigned_keeps(rows[i], values, "display_name"@);
        model::assigned_keeps(rows[i], values, "display_name_source"@);
    }
}

} // verus!
