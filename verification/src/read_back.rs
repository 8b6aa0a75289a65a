//! What a read gives back of a write.
//!
//! Every law speaks of workflows whose replies a store of [`crate::model`] gives.
use crate::accounts::{self, AccountError};
use crate::avatars::{self, ImageView};
use crate::frames;
use crate::game::{self, GameId, Timestamp};
use crate::ids;
use crate::model::{self, Store, Workflow};
use crate::move_plans::{self, MovePlanError};
use crate::profiles::{self, AvatarSource, ProfileError};
use crate::rack_preferences::{self, RackPreferenceError};
use crate::script::{self, Ask, Outcome, Reply, Trace};
use crate::steady;
use crate::store::{Datum, Op, Value, Verb};
use vstd::prelude::*;

verus! {

/// Saving a move plan.
pub open spec fn saving_plan(
    game_id: GameId,
    user_id: Seq<char>,
    payload: Seq<char>,
    board_revision: u64,
    updated_at_ms: i64,
) -> Workflow<(), MovePlanError> {
    |trace: Trace|
        move_plans::member_run(
            trace,
            game_id,
            user_id,
            |trace: Trace|
                script::perform(
                    trace,
                    move_plans::upsert_plan_op(
                        game_id,
                        user_id,
                        payload,
                        board_revision,
                        updated_at_ms,
                    ),
                    |trace: Trace| script::done(trace, ()),
                ),
        )
}

/// Loading a move plan.
pub open spec fn loading_plan(game_id: GameId, user_id: Seq<char>) -> Workflow<
    Option<(Seq<char>, u64)>,
    MovePlanError,
> {
    |trace: Trace| move_plans::load_plan_run(trace, game_id, user_id)
}

/// The request that checks a user's membership.
pub open spec fn membership_op(game_id: GameId, user_id: Seq<char>) -> Op {
    Op::select("game_players"@).where_text("game_id"@, ids::id_text_of(game_id)).where_text(
        "user_id"@,
        user_id,
    )
}

/// A member who loads a plan gets back what was saved last, where a signed number can hold its
/// revision.
pub proof fn plans_are_read_back(
    game_id: GameId,
    user_id: Seq<char>,
    payload: Seq<char>,
    board_revision: u64,
    updated_at_ms: i64,
    replies: Seq<Reply>,
    store: Store,
    later_replies: Seq<Reply>,
)
    requires
        board_revision <= i64::MAX,
        model::served(
            saving_plan(game_id, user_id, payload, board_revision, updated_at_ms),
            replies,
            store,
        ),
        model::ending(
            saving_plan(game_id, user_id, payload, board_revision, updated_at_ms),
            replies,
        ) is Done,
        model::served(
            loading_plan(game_id, user_id),
            later_replies,
            model::store_after(
                saving_plan(game_id, user_id, payload, board_revision, updated_at_ms),
                replies,
                store,
            ),
        ),
        later_replies.len() > 1,
    ensures
        model::ending(loading_plan(game_id, user_id), later_replies) == Outcome::<
            Option<(Seq<char>, u64)>,
            MovePlanError,
        >::Done(Some((payload, board_revision))),
{
    let workflow = saving_plan(game_id, user_id, payload, board_revision, updated_at_ms);
    let member = membership_op(game_id, user_id);
    let upsert = move_plans::upsert_plan_op(
        game_id,
        user_id,
        payload,
        board_revision,
        updated_at_ms,
    );
    assert(replies.len() > 1) by {
        if replies.len() <= 1 {
            assert(replies =~= replies.take(replies.len() as int));
        }
    }
    assert(model::asked(workflow, replies, 0) == Some(Ask::Store(member)));
    assert(model::served_at(workflow, replies, store, 0));
    assert(replies.take(1)[0] == replies[0]);
    assert(model::asked(workflow, replies, 1) == Some(Ask::Store(upsert)));
    assert(model::served_at(workflow, replies, store, 1));
    let after = model::executed(store, upsert).0;
    assert(model::store_at(workflow, replies, store, 1) == store);
    assert(model::store_at(workflow, replies, store, 2) == after);
    if replies.len() > 2 {
        assert(replies.take(2)[0] == replies[0]);
        assert(replies.take(2)[1] == replies[1]);
        assert(model::served_at(workflow, replies, store, 2));
    }
    reveal_strlit("move_plan_id");
    reveal_strlit("game_id");
    reveal_strlit("user_id");
    reveal_strlit("payload");
    reveal_strlit("board_revision");
    reveal_strlit("updated_at_ms");
    reveal_strlit("game_players");
    reveal_strlit("move_plans");
    assert("move_plan_id"@.len() == 12);
    assert("game_id"@.len() == 7 && "game_id"@[0] == 'g');
    assert("user_id"@.len() == 7 && "user_id"@[0] == 'u');
    assert("payload"@.len() == 7 && "payload"@[0] == 'p');
    assert("board_revision"@.len() == 14);
    assert("updated_at_ms"@.len() == 13);
    assert("game_players"@.len() == 12);
    assert("move_plans"@.len() == 10);
    model::upserted_rows_hold(store, upsert, 0, 3);
    model::upserted_rows_hold(store, upsert, 0, 4);
    let reading = loading_plan(game_id, user_id);
    assert(after.rows("game_players"@) == store.rows("game_players"@));
    assert(model::asked(reading, later_replies, 0) == Some(Ask::Store(member)));
    assert(model::served_at(reading, later_replies, after, 0));
    assert(later_replies.take(1)[0] == later_replies[0]);
    let select = Op::select("move_plans"@).where_text(
        "move_plan_id"@,
        move_plans::plan_id_of(game_id, user_id),
    );
    let records = model::executed(store, member).1;
    assert(model::executed(after, member).1 == records);
    let seat = replies[0]->Rows_0@[0];
    let again = later_replies[0]->Rows_0@[0];
    model::shown_values(seat, records[0], "game_player_id"@);
    model::shown_values(again, records[0], "game_player_id"@);
    assert(model::asked(reading, later_replies, 1) == Some(Ask::Store(select)));
    assert(model::served_at(reading, later_replies, after, 1));
    assert(select.filters =~= upsert.filters);
    let held = model::found(after.rows("move_plans"@), select.filters);
    let shown = later_replies[1]->Rows_0@[0];
    model::shown_values(shown, held[0], "payload"@);
    model::shown_values(shown, held[0], "board_revision"@);
    assert(shown.column("board_revision"@) matches Some(Value::Integer(number)) && number
        == board_revision) by {
        assert(match shown.column("board_revision"@) {
            Some(Value::Unsigned(_)) => false,
            Some(value) => value@ == model::datum_in(held[0], "board_revision"@),
            None => model::datum_in(held[0], "board_revision"@) == Datum::Null,
        });
    }
}

/// Saving a rack order.
pub open spec fn saving_order(
    game_id: GameId,
    user_id: Seq<char>,
    preferred: Seq<u16>,
    updated_at_ms: i64,
) -> Workflow<Seq<u16>, RackPreferenceError> {
    |trace: Trace|
        rack_preferences::save_rack_order_run(trace, game_id, user_id, preferred, updated_at_ms)
}

/// Loading a rack order.
pub open spec fn loading_order(game_id: GameId, user_id: Seq<char>) -> Workflow<
    Seq<u16>,
    RackPreferenceError,
> {
    |trace: Trace| rack_preferences::load_rack_order_run(trace, game_id, user_id)
}

proof fn rack_only_reads(trace: Trace, game_id: GameId, user_id: Seq<char>)
    ensures
        frames::only_reads(rack_preferences::rack_run(trace, game_id, user_id)),
{
    frames::recovery_only_reads(trace.next(), game_id);
}

/// What a successful save of a rack order leaves behind.
proof fn order_is_stored(
    game_id: GameId,
    user_id: Seq<char>,
    preferred: Seq<u16>,
    updated_at_ms: i64,
    replies: Seq<Reply>,
    store: Store,
    order: Seq<u16>,
)
    requires
        model::served(saving_order(game_id, user_id, preferred, updated_at_ms), replies, store),
        model::ending(saving_order(game_id, user_id, preferred, updated_at_ms), replies)
            == Outcome::<Seq<u16>, RackPreferenceError>::Done(order),
    ensures
        ({
            let after = model::store_after(
                saving_order(game_id, user_id, preferred, updated_at_ms),
                replies,
                store,
            );
            let op = rack_preferences::upsert_preference_op(
                game_id,
                user_id,
                order,
                updated_at_ms,
            );
            let hits = model::found(after.rows("rack_preferences"@), op.filters);
            &&& hits.len() > 0
            &&& forall|i: int|
                0 <= i < hits.len() ==> model::datum_in(#[trigger] hits[i], "tile_order"@)
                    == Datum::Text(rack_preferences::order_text_of(order))
        }),
{
    let workflow = saving_order(game_id, user_id, preferred, updated_at_ms);
    let full = rack_preferences::rack_run(Trace { replies, at: 0 }, game_id, user_id);
    let end = full.trace.at;
    let op = rack_preferences::upsert_preference_op(game_id, user_id, order, updated_at_ms);
    steady::rack_is_steady(replies, 0, replies.len() as int, game_id, user_id);
    assert(replies.take(replies.len() as int) =~= replies);
    assert(end < replies.len());
    steady::rack_is_steady(replies, 0, end, game_id, user_id);
    assert(model::asked(workflow, replies, end) == Some(Ask::Store(op)));
    assert(model::served_at(workflow, replies, store, end));
    let before = model::store_at(workflow, replies, store, end);
    assert(model::store_at(workflow, replies, store, end + 1) == model::executed(before, op).0);
    if replies.len() > end + 1 {
        steady::rack_is_steady(replies, 0, end + 1, game_id, user_id);
        assert(replies.take(end + 1)[end] == replies[end]);
        assert(model::served_at(workflow, replies, store, end + 1));
    }
    reveal_strlit("rack_preference_id");
    reveal_strlit("game_id");
    reveal_strlit("user_id");
    reveal_strlit("tile_order");
    reveal_strlit("updated_at_ms");
    assert("rack_preference_id"@.len() == 18);
    assert("game_id"@.len() == 7);
    assert("user_id"@.len() == 7);
    assert("tile_order"@.len() == 10);
    assert("updated_at_ms"@.len() == 13);
    model::upserted_rows_hold(before, op, 0, 3);
}

/// A member who loads a rack order gets back what was saved last, reconciled with the rack of the
/// moment: exactly what was saved where the rack has not changed.
pub proof fn rack_orders_are_read_back(
    game_id: GameId,
    user_id: Seq<char>,
    preferred: Seq<u16>,
    updated_at_ms: i64,
    replies: Seq<Reply>,
    store: Store,
    order: Seq<u16>,
    later_replies: Seq<Reply>,
    rack: Seq<u16>,
)
    requires
        model::served(saving_order(game_id, user_id, preferred, updated_at_ms), replies, store),
        model::ending(saving_order(game_id, user_id, preferred, updated_at_ms), replies)
            == Outcome::<Seq<u16>, RackPreferenceError>::Done(order),
        model::served(
            loading_order(game_id, user_id),
            later_replies,
            model::store_after(
                saving_order(game_id, user_id, preferred, updated_at_ms),
                replies,
                store,
            ),
        ),
        !(model::ending(loading_order(game_id, user_id), later_replies) is Wait),
        rack_preferences::rack_run(
            Trace { replies: later_replies, at: 0 },
            game_id,
            user_id,
        ).outcome == Outcome::<Seq<u16>, RackPreferenceError>::Done(rack),
    ensures
        model::ending(loading_order(game_id, user_id), later_replies) == Outcome::<
            Seq<u16>,
            RackPreferenceError,
        >::Done(rack_preferences::reconciled(order, rack)),
        rack_preferences::rack_run(Trace { replies, at: 0 }, game_id, user_id).outcome
            == Outcome::<Seq<u16>, RackPreferenceError>::Done(rack)
            ==> rack_preferences::reconciled(order, rack) == order,
{
    let saving = saving_order(game_id, user_id, preferred, updated_at_ms);
    let loading = loading_order(game_id, user_id);
    let after = model::store_after(saving, replies, store);
    order_is_stored(game_id, user_id, preferred, updated_at_ms, replies, store, order);
    rack_preferences::written_orders_are_read(order);
    let full = rack_preferences::rack_run(
        Trace { replies: later_replies, at: 0 },
        game_id,
        user_id,
    );
    let end = full.trace.at;
    let count = later_replies.len() as int;
    steady::rack_is_steady(later_replies, 0, count, game_id, user_id);
    assert(later_replies.take(count) =~= later_replies);
    assert(end < count);
    steady::rack_is_steady(later_replies, 0, end, game_id, user_id);
    let select = Op::select("rack_preferences"@).where_text(
        "rack_preference_id"@,
        rack_preferences::preference_id_of(game_id, user_id),
    );
    assert(model::asked(loading, later_replies, end) == Some(Ask::Store(select)));
    assert forall|earlier: int| 0 <= earlier < end implies ((#[trigger] model::asked(
        loading,
        later_replies,
        earlier,
    )) matches Some(Ask::Store(op)) ==> op.verb == Verb::Select) by {
        steady::rack_is_steady(later_replies, 0, earlier, game_id, user_id);
        rack_only_reads(
            Trace { replies: later_replies.take(earlier), at: 0 },
            game_id,
            user_id,
        );
    }
    frames::store_stays(loading, later_replies, after, end);
    assert(model::served_at(loading, later_replies, after, end));
    let upsert = rack_preferences::upsert_preference_op(game_id, user_id, order, updated_at_ms);
    assert(select.filters =~= upsert.filters);
    let hits = model::found(after.rows("rack_preferences"@), select.filters);
    model::shown_values(later_replies[end]->Rows_0@[0], hits[0], "tile_order"@);
    let first = rack_preferences::rack_run(Trace { replies, at: 0 }, game_id, user_id);
    if first.outcome == Outcome::<Seq<u16>, RackPreferenceError>::Done(rack) {
        rack_preferences::reconciling_is_idempotent(preferred, rack);
    }
}

/// Storing a profile image.
pub open spec fn storing_image(
    user_id: Seq<char>,
    image: ImageView,
    source: AvatarSource,
    now: Timestamp,
) -> Workflow<(), ProfileError> {
    |trace: Trace| profiles::store_image_run(trace, user_id, image, source, now)
}

/// Loading a profile image.
pub open spec fn loading_image(user_id: Seq<char>, hash: Seq<char>) -> Workflow<
    Option<ImageView>,
    ProfileError,
> {
    |trace: Trace| profiles::load_image_run(trace, user_id, hash)
}

/// What storing an image leaves behind.
proof fn image_is_stored(
    user_id: Seq<char>,
    image: ImageView,
    source: AvatarSource,
    now: Timestamp,
    replies: Seq<Reply>,
    store: Store,
)
    requires
        model::served(storing_image(user_id, image, source, now), replies, store),
        model::ending(storing_image(user_id, image, source, now), replies) is Done,
    ensures
        game::millis_at(now) is Some,
        model::store_after(
            storing_image(user_id, image, source, now),
            replies,
            store,
        ).rows("user_profile_images"@) == model::executed(
            store,
            profiles::store_image_op(user_id, image, game::millis_at(now)->0),
        ).0.rows("user_profile_images"@),
{
    let workflow = storing_image(user_id, image, source, now);
    let now_ms = game::millis_at(now)->0;
    let upsert = profiles::store_image_op(user_id, image, now_ms);
    let own = profiles::own_avatar_op(user_id, source, now_ms);
    assert(replies =~= replies.take(replies.len() as int));
    assert(model::asked(workflow, replies, 0) == Some(Ask::Store(Op::begin())));
    assert(replies.take(1)[0] == replies[0]);
    assert(model::served_at(workflow, replies, store, 0));
    assert(model::asked(workflow, replies, 1) == Some(Ask::Store(upsert)));
    assert(model::served_at(workflow, replies, store, 1));
    assert(replies.take(2)[0] == replies[0]);
    assert(replies.take(2)[1] == replies[1]);
    assert(model::asked(workflow, replies, 2) == Some(Ask::Store(own)));
    assert(model::served_at(workflow, replies, store, 2));
    assert(replies.take(3)[0] == replies[0]);
    assert(replies.take(3)[1] == replies[1]);
    assert(replies.take(3)[2] == replies[2]);
    assert(model::asked(workflow, replies, 3) == Some(Ask::Store(Op::commit())));
    assert(model::served_at(workflow, replies, store, 3));
    let begun = model::executed(store, Op::begin()).0;
    assert(model::store_at(workflow, replies, store, 1) == begun);
    let stored = model::executed(begun, upsert).0;
    assert(model::store_at(workflow, replies, store, 2) == stored);
    let owned = model::executed(stored, own).0;
    assert(model::store_at(workflow, replies, store, 3) == owned);
    let after = model::executed(owned, Op::commit()).0;
    assert(model::store_at(workflow, replies, store, 4) == after);
    if replies.len() > 4 {
        assert(replies.take(4)[0] == replies[0]);
        assert(replies.take(4)[1] == replies[1]);
        assert(replies.take(4)[2] == replies[2]);
        assert(replies.take(4)[3] == replies[3]);
        assert(model::served_at(workflow, replies, store, 4));
    }
    reveal_strlit("user_profile_images");
    reveal_strlit("user_profiles");
    assert("user_profile_images"@.len() == 19);
    assert("user_profiles"@.len() == 13);
}

/// A stored picture is read back under its digest; under another digest there is none.
pub proof fn images_are_read_back(
    user_id: Seq<char>,
    image: ImageView,
    source: AvatarSource,
    now: Timestamp,
    replies: Seq<Reply>,
    store: Store,
    hash: Seq<char>,
    later_replies: Seq<Reply>,
)
    requires
        image.content_type == "image/png"@,
        model::served(storing_image(user_id, image, source, now), replies, store),
        model::ending(storing_image(user_id, image, source, now), replies) is Done,
        model::served(
            loading_image(user_id, hash),
            later_replies,
            model::store_after(storing_image(user_id, image, source, now), replies, store),
        ),
        !(model::ending(loading_image(user_id, hash), later_replies) is Wait),
    ensures
        hash == image.content_sha256 ==> model::ending(
            loading_image(user_id, hash),
            later_replies,
        ) == Outcome::<Option<ImageView>, ProfileError>::Done(Some(image)),
        hash != image.content_sha256 ==> model::ending(
            loading_image(user_id, hash),
            later_replies,
        ) == Outcome::<Option<ImageView>, ProfileError>::Done(None),
{
    let storing = storing_image(user_id, image, source, now);
    let loading = loading_image(user_id, hash);
    let after = model::store_after(storing, replies, store);
    let upsert = profiles::store_image_op(user_id, image, game::millis_at(now)->0);
    let select = Op::select("user_profile_images"@).where_text("user_id"@, user_id).where_text(
        "content_sha256"@,
        hash,
    );
    image_is_stored(user_id, image, source, now, replies, store);
    avatars::written_base64_is_read(image.bytes);
    assert(later_replies =~= later_replies.take(later_replies.len() as int));
    assert(model::asked(loading, later_replies, 0) == Some(Ask::Store(select)));
    assert(model::served_at(loading, later_replies, after, 0));
    let rows = after.rows("user_profile_images"@);
    reveal_strlit("user_id");
    reveal_strlit("content_type");
    reveal_strlit("content_base64");
    reveal_strlit("content_sha256");
    reveal_strlit("width");
    reveal_strlit("height");
    reveal_strlit("updated_at_ms");
    assert("user_id"@.len() == 7);
    assert("content_type"@.len() == 12);
    assert("content_base64"@.len() == 14 && "content_base64"@[8] == 'b');
    assert("content_sha256"@.len() == 14 && "content_sha256"@[8] == 's');
    assert("width"@.len() == 5);
    assert("height"@.len() == 6);
    assert("updated_at_ms"@.len() == 13);
    model::upserted_rows_hold(store, upsert, 0, 1);
    let mine = model::found(rows, upsert.filters);
    model::found_rows(rows, upsert.filters);
    model::found_rows(rows, select.filters);
    let hits = model::found(rows, select.filters);
    assert forall|r: int| 0 <= r < rows.len() && model::meets_all(
        #[trigger] rows[r],
        select.filters,
    ) implies model::datum_in(rows[r], "user_id"@) == Datum::Text(user_id) && model::datum_in(
        rows[r],
        "content_sha256"@,
    ) == Datum::Text(hash) by {
        assert(model::meets(rows[r], select.filters[0]));
        assert(model::meets(rows[r], select.filters[1]));
    }
    row_of_key_holds(store, upsert);
    assert(upsert.values[1] == ("content_type"@, Datum::Text(image.content_type)));
    assert(upsert.values[2] == ("content_base64"@, Datum::Text(avatars::base64_of(image.bytes))));
    assert(upsert.values[3] == ("content_sha256"@, Datum::Text(image.content_sha256)));
    assert(upsert.values[4] == ("width"@, Datum::Integer(image.width as int)));
    assert(upsert.values[5] == ("height"@, Datum::Integer(image.height as int)));
    if hash == image.content_sha256 {
        let w = choose|w: int| 0 <= w < rows.len() && model::meets_all(
            #[trigger] rows[w],
            upsert.filters,
        );
        assert(model::meets(rows[w], upsert.filters[0]));
        assert forall|k: int| 0 <= k < select.filters.len() implies model::meets(
            rows[w],
            #[trigger] select.filters[k],
        ) by {
            assert(k == 0 || k == 1);
        }
        assert(model::meets_all(rows[w], select.filters));
        assert(hits.len() > 0);
        let at = choose|at: int| 0 <= at < rows.len() && rows[at] == hits[0];
        assert(model::meets_all(rows[at], select.filters));
        assert(model::meets(rows[at], upsert.filters[0]));
        assert(model::meets_all(rows[at], upsert.filters));
        let shown = later_replies[0]->Rows_0@[0];
        model::shown_values(shown, hits[0], "content_type"@);
        model::shown_values(shown, hits[0], "content_base64"@);
        model::shown_values(shown, hits[0], "content_sha256"@);
        model::shown_values(shown, hits[0], "width"@);
        model::shown_values(shown, hits[0], "height"@);
    } else if hits.len() > 0 {
        let at = choose|at: int| 0 <= at < rows.len() && model::meets_all(
            #[trigger] rows[at],
            select.filters,
        );
        assert(model::meets(rows[at], upsert.filters[0]));
        assert(model::meets_all(rows[at], upsert.filters));
    }
}

/// After an image was stored, every row of its owner holds it.
proof fn row_of_key_holds(store: Store, upsert: Op)
    requires
        exists|user_id: Seq<char>, image: ImageView, now_ms: i64|
            upsert == #[trigger] profiles::store_image_op(user_id, image, now_ms),
    ensures
        ({
            let rows = model::executed(store, upsert).0.rows(upsert.table);
            forall|r: int, k: int|
                0 <= r < rows.len() && 1 <= k < 6 && model::meets_all(
                    #[trigger] rows[r],
                    upsert.filters,
                ) ==> model::datum_in(rows[r], (#[trigger] upsert.values[k]).0)
                    == upsert.values[k].1
        }),
{
    let rows = store.rows(upsert.table);
    let after = model::executed(store, upsert).0.rows(upsert.table);
    reveal_strlit("user_id");
    reveal_strlit("content_type");
    reveal_strlit("content_base64");
    reveal_strlit("content_sha256");
    reveal_strlit("width");
    reveal_strlit("height");
    reveal_strlit("updated_at_ms");
    assert("user_id"@.len() == 7);
    assert("content_type"@.len() == 12);
    assert("content_base64"@.len() == 14 && "content_base64"@[8] == 'b');
    assert("content_sha256"@.len() == 14 && "content_sha256"@[8] == 's');
    assert("width"@.len() == 5);
    assert("height"@.len() == 6);
    assert("updated_at_ms"@.len() == 13);
    model::found_rows(rows, upsert.filters);
    assert forall|r: int, k: int|
        0 <= r < after.len() && 1 <= k < 6 && model::meets_all(
            #[trigger] after[r],
            upsert.filters,
        ) implies model::datum_in(after[r], (#[trigger] upsert.values[k]).0)
        == upsert.values[k].1 by {
        if r < rows.len() {
            model::assigned_sets(rows[r], upsert.values, k);
            if !model::meets_all(rows[r], upsert.filters) {
                assert(after[r] == rows[r]);
            }
        } else {
            model::assigned_sets(Map::empty(), upsert.values, k);
        }
    }
}

/// Registering an account.
pub open spec fn registering(
    username: Seq<char>,
    password: Seq<char>,
    now: Timestamp,
) -> Workflow<Seq<char>, AccountError> {
    |trace: Trace| accounts::register_run(trace, username, password, now)
}

/// Authenticating a user.
pub open spec fn authenticating(username: Seq<char>, password: Seq<char>) -> Workflow<
    Seq<char>,
    AccountError,
> {
    |trace: Trace| accounts::authenticate_run(trace, username, password)
}

/// The hash that a registration was given.
pub open spec fn given_hash(replies: Seq<Reply>) -> Seq<char> {
    script::reply_text(replies[2])->0
}

/// What a registration leaves behind.
pub proof fn account_is_stored(
    username: Seq<char>,
    password: Seq<char>,
    now: Timestamp,
    replies: Seq<Reply>,
    store: Store,
    user_id: Seq<char>,
)
    requires
        model::served(registering(username, password, now), replies, store),
        model::ending(registering(username, password, now), replies) == Outcome::<
            Seq<char>,
            AccountError,
        >::Done(user_id),
    ensures
        ({
            let after = model::store_after(registering(username, password, now), replies, store);
            let normalized = accounts::normalized_username(username);
            let now_ms = game::millis_at(now);
            &&& normalized is Some
            &&& now_ms is Some
            &&& model::found(
                store.rows("users"@),
                Op::select("users"@).where_text("username_normalized"@, normalized->0).filters,
            ).len() == 0
            &&& after.rows("users"@) == store.rows("users"@).push(
                model::assigned(
                    Map::empty(),
                    accounts::insert_user_op(
                        user_id,
                        normalized->0,
                        crate::text::trimmed(username),
                        now_ms->0,
                    ).values,
                ),
            )
            &&& after.rows("password_credentials"@) == store.rows("password_credentials"@).push(
                model::assigned(
                    Map::empty(),
                    accounts::insert_credential_op(
                        user_id,
                        given_hash(replies),
                        now_ms->0,
                    ).values,
                ),
            )
        }),
{
    let workflow = registering(username, password, now);
    let normalized = accounts::normalized_username(username)->0;
    let now_ms = game::millis_at(now)->0;
    let user = accounts::insert_user_op(
        user_id,
        normalized,
        crate::text::trimmed(username),
        now_ms,
    );
    let credential = accounts::insert_credential_op(user_id, given_hash(replies), now_ms);
    assert(replies =~= replies.take(replies.len() as int));
    assert(replies.len() > 6);
    assert(model::served_at(workflow, replies, store, 0));
    assert(replies.take(1)[0] == replies[0]);
    assert(replies.take(2)[0] == replies[0]);
    assert(replies.take(2)[1] == replies[1]);
    assert(replies.take(3)[0] == replies[0]);
    assert(replies.take(3)[1] == replies[1]);
    assert(replies.take(3)[2] == replies[2]);
    assert(model::asked(workflow, replies, 3) == Some(Ask::Store(Op::begin())));
    assert(model::served_at(workflow, replies, store, 3));
    registration_goes_on(workflow, username, password, now, replies, 4);
    assert(model::asked(workflow, replies, 4) == Some(Ask::Store(user)));
    assert(model::served_at(workflow, replies, store, 4));
    registration_goes_on(workflow, username, password, now, replies, 5);
    assert(model::asked(workflow, replies, 5) == Some(Ask::Store(credential)));
    assert(model::served_at(workflow, replies, store, 5));
    registration_goes_on(workflow, username, password, now, replies, 6);
    assert(model::asked(workflow, replies, 6) == Some(Ask::Store(Op::commit())));
    assert(model::served_at(workflow, replies, store, 6));
    assert(model::store_at(workflow, replies, store, 1) == store);
    assert(model::store_at(workflow, replies, store, 2) == store);
    assert(model::store_at(workflow, replies, store, 3) == store);
    let begun = model::executed(store, Op::begin()).0;
    assert(model::store_at(workflow, replies, store, 4) == begun);
    let named = model::executed(begun, user).0;
    assert(model::store_at(workflow, replies, store, 5) == named);
    let kept = model::executed(named, credential).0;
    assert(model::store_at(workflow, replies, store, 6) == kept);
    let after = model::executed(kept, Op::commit()).0;
    assert(model::store_at(workflow, replies, store, 7) == after);
    if replies.len() > 7 {
        registration_goes_on(workflow, username, password, now, replies, 7);
        assert(model::served_at(workflow, replies, store, 7));
    }
    reveal_strlit("users");
    reveal_strlit("password_credentials");
    assert("users"@.len() == 5);
    assert("password_credentials"@.len() == 20);
}

/// The first replies of a registration, cut behind its hash.
proof fn registration_goes_on(
    workflow: Workflow<Seq<char>, AccountError>,
    username: Seq<char>,
    password: Seq<char>,
    now: Timestamp,
    replies: Seq<Reply>,
    count: int,
)
    requires
        workflow == registering(username, password, now),
        model::ending(workflow, replies) is Done,
        4 <= count <= 7,
        count <= replies.len(),
    ensures
        workflow(Trace { replies: replies.take(count), at: 0 }) == accounts::store_account_run(
            Trace { replies: replies.take(count), at: 3 },
            ids::id_text_of(replies[1]->Ids_0@[0]),
            accounts::normalized_username(username)->0,
            crate::text::trimmed(username),
            given_hash(replies),
            game::millis_at(now)->0,
        ),
        forall|i: int| 0 <= i < count ==> #[trigger] replies.take(count)[i] == replies[i],
{
    let cut = replies.take(count);
    assert(cut[0] == replies[0]);
    assert(cut[1] == replies[1]);
    assert(cut[2] == replies[2]);
}

/// Whoever has registered is authenticated under the same name with a password that matches the
/// hash of the registration, and refused with one that does not: the identity is the registered
/// one, however the name was written.
pub proof fn registered_users_authenticate(
    username: Seq<char>,
    password: Seq<char>,
    now: Timestamp,
    replies: Seq<Reply>,
    store: Store,
    user_id: Seq<char>,
    later_username: Seq<char>,
    later_password: Seq<char>,
    later_replies: Seq<Reply>,
)
    requires
        model::served(registering(username, password, now), replies, store),
        model::ending(registering(username, password, now), replies) == Outcome::<
            Seq<char>,
            AccountError,
        >::Done(user_id),
        forall|i: int|
            0 <= i < store.rows("password_credentials"@).len() ==> model::datum_in(
                #[trigger] store.rows("password_credentials"@)[i],
                "user_id"@,
            ) != Datum::Text(user_id),
        accounts::normalized_username(later_username) == accounts::normalized_username(username),
        model::served(
            authenticating(later_username, later_password),
            later_replies,
            model::store_after(registering(username, password, now), replies, store),
        ),
        later_replies.len() > 1,
    ensures
        accounts::password_check(later_password, given_hash(replies)) == Some(true)
            && !accounts::needs_upgrade(given_hash(replies)) ==> model::ending(
            authenticating(later_username, later_password),
            later_replies,
        ) == Outcome::<Seq<char>, AccountError>::Done(user_id),
        accounts::password_check(later_password, given_hash(replies)) == Some(false)
            ==> model::ending(authenticating(later_username, later_password), later_replies)
            == Outcome::<Seq<char>, AccountError>::Fail(AccountError::InvalidCredentials),
{
    let workflow = authenticating(later_username, later_password);
    let after = model::store_after(registering(username, password, now), replies, store);
    let normalized = accounts::normalized_username(username)->0;
    let now_ms = game::millis_at(now)->0;
    account_is_stored(username, password, now, replies, store, user_id);
    let by_name = Op::select("users"@).where_text("username_normalized"@, normalized);
    let by_user = Op::select("password_credentials"@).where_text("user_id"@, user_id);
    let user = model::assigned(
        Map::empty(),
        accounts::insert_user_op(
            user_id,
            normalized,
            crate::text::trimmed(username),
            now_ms,
        ).values,
    );
    let credential = model::assigned(
        Map::empty(),
        accounts::insert_credential_op(user_id, given_hash(replies), now_ms).values,
    );
    account_rows_hold(user_id, normalized, crate::text::trimmed(username), now_ms);
    credential_row_holds(user_id, given_hash(replies), now_ms);
    let users = store.rows("users"@);
    let credentials = store.rows("password_credentials"@);
    assert(users.push(user).drop_last() =~= users);
    assert(credentials.push(credential).drop_last() =~= credentials);
    assert(model::meets_all(user, by_name.filters)) by {
        assert(model::meets(user, by_name.filters[0]));
    }
    assert(model::meets_all(credential, by_user.filters)) by {
        assert(model::meets(credential, by_user.filters[0]));
    }
    model::found_rows(credentials, by_user.filters);
    if model::found(credentials, by_user.filters).len() > 0 {
        let i = choose|i: int|
            0 <= i < credentials.len() && model::meets_all(
                #[trigger] credentials[i],
                by_user.filters,
            );
        assert(model::meets(credentials[i], by_user.filters[0]));
    }
    assert(model::asked(workflow, later_replies, 0) == Some(Ask::Store(by_name)));
    assert(model::served_at(workflow, later_replies, after, 0));
    model::shown_values(later_replies[0]->Rows_0@[0], user, "user_id"@);
    assert(later_replies.take(1)[0] == later_replies[0]);
    assert(model::asked(workflow, later_replies, 1) == Some(Ask::Store(by_user)));
    assert(model::served_at(workflow, later_replies, after, 1));
    assert(model::store_at(workflow, later_replies, after, 1) == after);
    model::shown_values(later_replies[1]->Rows_0@[0], credential, "password_hash"@);
}

proof fn account_rows_hold(
    user_id: Seq<char>,
    normalized: Seq<char>,
    display: Seq<char>,
    now_ms: i64,
)
    ensures
        ({
            let record = model::assigned(
                Map::empty(),
                accounts::insert_user_op(user_id, normalized, display, now_ms).values,
            );
            &&& model::datum_in(record, "user_id"@) == Datum::Text(user_id)
            &&& model::datum_in(record, "username_normalized"@) == Datum::Text(normalized)
        }),
{
    let values = accounts::insert_user_op(user_id, normalized, display, now_ms).values;
    reveal_strlit("user_id");
    reveal_strlit("username_normalized");
    reveal_strlit("username_display");
    reveal_strlit("created_at_ms");
    assert("user_id"@.len() == 7);
    assert("username_normalized"@.len() == 19);
    assert("username_display"@.len() == 16);
    assert("created_at_ms"@.len() == 13);
    model::assigned_sets(Map::empty(), values, 0);
    model::assigned_sets(Map::empty(), values, 1);
}

proof fn credential_row_holds(user_id: Seq<char>, hash: Seq<char>, now_ms: i64)
    ensures
        ({
            let record = model::assigned(
                Map::empty(),
                accounts::insert_credential_op(user_id, hash, now_ms).values,
            );
            &&& model::datum_in(record, "user_id"@) == Datum::Text(user_id)
            &&& model::datum_in(record, "password_hash"@) == Datum::Text(hash)
        }),
{
    let values = accounts::insert_credential_op(user_id, hash, now_ms).values;
    reveal_strlit("user_id");
    reveal_strlit("password_hash");
    reveal_strlit("updated_at_ms");
    assert("user_id"@.len() == 7);
    assert("password_hash"@.len() == 13 && "password_hash"@[0] == 'p');
    assert("updated_at_ms"@.len() == 13 && "updated_at_ms"@[0] == 'u');
    model::assigned_sets(Map::empty(), values, 0);
    model::assigned_sets(Map::empty(), values, 1);
}

} // verus!
