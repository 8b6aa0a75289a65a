//! What the score totals promise: every user's games are counted, each once, and rebuilding is
//! repeatable.
use crate::model::{self, Record, Store, Workflow};
use crate::projections::{self, GameResult, ProjectionError, ScoreView, TotalsView};
use crate::script::{Ask, Outcome, Reply, Trace};
use crate::store::{Datum, Op, Relation, Row};
use crate::text;
use vstd::prelude::*;

verus! {

/// How many of the games are of a user.
pub open spec fn games_of(rows: Seq<Row>, user_id: Seq<char>) -> int
    decreases rows.len(),
{
    if rows.len() == 0 {
        0
    } else {
        games_of(rows.drop_last(), user_id) + if is_of(rows.last(), user_id) {
            1int
        } else {
            0
        }
    }
}

/// How many of the games of a user have a result.
pub open spec fn results_of(rows: Seq<Row>, user_id: Seq<char>, result: GameResult) -> int
    decreases rows.len(),
{
    if rows.len() == 0 {
        0
    } else {
        results_of(rows.drop_last(), user_id, result) + if is_of(rows.last(), user_id)
            && projections::score_row(rows.last())->0.result == result {
            1int
        } else {
            0
        }
    }
}

/// The sum of the scores of a user.
pub open spec fn points_of(rows: Seq<Row>, user_id: Seq<char>) -> int
    decreases rows.len(),
{
    if rows.len() == 0 {
        0
    } else {
        points_of(rows.drop_last(), user_id) + if is_of(rows.last(), user_id) {
            projections::score_row(rows.last())->0.score as int
        } else {
            0
        }
    }
}

/// Whether a stored score is of a user.
pub open spec fn is_of(row: Row, user_id: Seq<char>) -> bool {
    projections::score_row(row) matches Some(game) && game.user_id == user_id
}

/// Whether totals are listed by user in ascending order, each user once.
pub open spec fn ascending(totals: Seq<TotalsView>) -> bool {
    forall|i: int, j: int|
        0 <= i < j < totals.len() ==> text::precedes(
            (#[trigger] totals[i]).user_id,
            (#[trigger] totals[j]).user_id,
        )
}

/// Whether a total says what the games of its user add up to.
pub open spec fn adds_up(rows: Seq<Row>, total: TotalsView) -> bool {
    &&& total.completed_games == games_of(rows, total.user_id)
    &&& total.wins == results_of(rows, total.user_id, GameResult::Win)
    &&& total.ties == results_of(rows, total.user_id, GameResult::Tie)
    &&& total.total_score == points_of(rows, total.user_id)
}

/// Whether totals list a user.
pub open spec fn lists(totals: Seq<TotalsView>, user_id: Seq<char>) -> bool {
    exists|i: int| 0 <= i < totals.len() && (#[trigger] totals[i]).user_id == user_id
}

proof fn slot_is_right(totals: Seq<TotalsView>, user_id: Seq<char>)
    requires
        ascending(totals),
    ensures
        0 <= projections::user_slot(totals, user_id) <= totals.len(),
        forall|i: int|
            0 <= i < projections::user_slot(totals, user_id) ==> text::precedes(
                (#[trigger] totals[i]).user_id,
                user_id,
            ),
        projections::user_slot(totals, user_id) < totals.len() ==> !text::precedes(
            totals[projections::user_slot(totals, user_id)].user_id,
            user_id,
        ),
    decreases totals.len(),
{
    if totals.len() > 0 && text::precedes(totals[0].user_id, user_id) {
        let rest = totals.skip(1);
        assert forall|i: int, j: int| 0 <= i < j < rest.len() implies text::precedes(
            (#[trigger] rest[i]).user_id,
            (#[trigger] rest[j]).user_id,
        ) by {
            assert(rest[i] == totals[i + 1] && rest[j] == totals[j + 1]);
        }
        slot_is_right(rest, user_id);
        let at = projections::user_slot(rest, user_id);
        assert forall|i: int| 0 <= i < at + 1 implies text::precedes(
            (#[trigger] totals[i]).user_id,
            user_id,
        ) by {
            if i > 0 {
                assert(rest[i - 1] == totals[i]);
            }
        }
    }
}

/// A game of somebody else changes nothing for a user.
proof fn nothing_changes(rows: Seq<Row>, more: Seq<Row>, user_id: Seq<char>)
    requires
        more.len() > 0,
        rows == more.drop_last(),
        !is_of(more.last(), user_id),
    ensures
        games_of(more, user_id) == games_of(rows, user_id),
        points_of(more, user_id) == points_of(rows, user_id),
        results_of(more, user_id, GameResult::Win) == results_of(rows, user_id, GameResult::Win),
        results_of(more, user_id, GameResult::Tie) == results_of(rows, user_id, GameResult::Tie),
{
}

/// Whoever has no games has no points and no results.
proof fn unlisted_has_none(rows: Seq<Row>, user_id: Seq<char>)
    requires
        games_of(rows, user_id) == 0,
    ensures
        points_of(rows, user_id) == 0,
        results_of(rows, user_id, GameResult::Win) == 0,
        results_of(rows, user_id, GameResult::Tie) == 0,
    decreases rows.len(),
{
    if rows.len() > 0 {
        games_are_counted(rows.drop_last(), user_id);
        unlisted_has_none(rows.drop_last(), user_id);
    }
}

proof fn games_are_counted(rows: Seq<Row>, user_id: Seq<char>)
    ensures
        games_of(rows, user_id) >= 0,
    decreases rows.len(),
{
    if rows.len() > 0 {
        games_are_counted(rows.drop_last(), user_id);
    }
}

/// The totals list every user with a game, in ascending order, each once, and each total is what
/// the user's games add up to.
pub proof fn totals_add_up(rows: Seq<Row>, totals: Seq<TotalsView>)
    requires
        projections::tally(rows) == Some(totals),
    ensures
        ascending(totals),
        forall|i: int| 0 <= i < totals.len() ==> adds_up(rows, #[trigger] totals[i]),
        forall|user_id: Seq<char>|
            #![trigger games_of(rows, user_id)]
            lists(totals, user_id) <==> games_of(rows, user_id) > 0,
    decreases rows.len(),
{
    if rows.len() > 0 {
        let less = rows.drop_last();
        let before = projections::tally(less)->0;
        let game = projections::score_row(rows.last())->0;
        totals_add_up(less, before);
        let at = projections::user_slot(before, game.user_id);
        slot_is_right(before, game.user_id);
        if at < before.len() && before[at].user_id == game.user_id {
            credit_is_right(less, rows, before, totals, game, at);
        } else {
            entry_is_right(less, rows, before, totals, game, at);
        }
    }
}

proof fn credit_is_right(
    less: Seq<Row>,
    rows: Seq<Row>,
    before: Seq<TotalsView>,
    totals: Seq<TotalsView>,
    game: ScoreView,
    at: int,
)
    requires
        rows.len() > 0,
        less == rows.drop_last(),
        projections::score_row(rows.last()) == Some(game),
        ascending(before),
        forall|i: int| 0 <= i < before.len() ==> adds_up(less, #[trigger] before[i]),
        forall|user_id: Seq<char>|
            #![trigger games_of(less, user_id)]
            lists(before, user_id) <==> games_of(less, user_id) > 0,
        0 <= at < before.len(),
        before[at].user_id == game.user_id,
        projections::with_game(before[at], game.score, game.result) is Some,
        totals == before.update(
            at,
            projections::with_game(before[at], game.score, game.result)->0,
        ),
    ensures
        ascending(totals),
        forall|i: int| 0 <= i < totals.len() ==> adds_up(rows, #[trigger] totals[i]),
        forall|user_id: Seq<char>|
            #![trigger games_of(rows, user_id)]
            lists(totals, user_id) <==> games_of(rows, user_id) > 0,
{
    assert forall|i: int| 0 <= i < totals.len() implies adds_up(rows, #[trigger] totals[i]) by {
        assert(adds_up(less, before[i]));
        if i != at {
            text::precedes_irreflexive(game.user_id);
            if i < at {
                assert(text::precedes(before[i].user_id, before[at].user_id));
            } else {
                assert(text::precedes(before[at].user_id, before[i].user_id));
            }
            nothing_changes(less, rows, before[i].user_id);
        }
    }
    assert forall|i: int, j: int| 0 <= i < j < totals.len() implies text::precedes(
        (#[trigger] totals[i]).user_id,
        (#[trigger] totals[j]).user_id,
    ) by {
        assert(text::precedes(before[i].user_id, before[j].user_id));
    }
    assert forall|user_id: Seq<char>|
        #![trigger games_of(rows, user_id)]
        lists(totals, user_id) <==> games_of(rows, user_id) > 0 by {
        games_are_counted(less, user_id);
        let held = games_of(less, user_id);
        if lists(totals, user_id) {
            let i = choose|i: int| 0 <= i < totals.len() && (#[trigger] totals[i]).user_id
                == user_id;
            assert(before[i].user_id == user_id);
            assert(lists(before, user_id));
        }
        if lists(before, user_id) {
            let i = choose|i: int| 0 <= i < before.len() && (#[trigger] before[i]).user_id
                == user_id;
            assert(totals[i].user_id == user_id);
        }
        if user_id == game.user_id {
            assert(totals[at].user_id == user_id);
        }
    }
}

proof fn entry_is_right(
    less: Seq<Row>,
    rows: Seq<Row>,
    before: Seq<TotalsView>,
    totals: Seq<TotalsView>,
    game: ScoreView,
    at: int,
)
    requires
        rows.len() > 0,
        less == rows.drop_last(),
        projections::score_row(rows.last()) == Some(game),
        ascending(before),
        forall|i: int| 0 <= i < before.len() ==> adds_up(less, #[trigger] before[i]),
        forall|user_id: Seq<char>|
            #![trigger games_of(less, user_id)]
            lists(before, user_id) <==> games_of(less, user_id) > 0,
        0 <= at <= before.len(),
        forall|i: int|
            0 <= i < at ==> text::precedes((#[trigger] before[i]).user_id, game.user_id),
        at < before.len() ==> !text::precedes(before[at].user_id, game.user_id)
            && before[at].user_id != game.user_id,
        projections::with_game(
            projections::no_games(game.user_id),
            game.score,
            game.result,
        ) is Some,
        totals == before.insert(
            at,
            projections::with_game(
                projections::no_games(game.user_id),
                game.score,
                game.result,
            )->0,
        ),
    ensures
        ascending(totals),
        forall|i: int| 0 <= i < totals.len() ==> adds_up(rows, #[trigger] totals[i]),
        forall|user_id: Seq<char>|
            #![trigger games_of(rows, user_id)]
            lists(totals, user_id) <==> games_of(rows, user_id) > 0,
{
    assert forall|i: int| at <= i < before.len() implies text::precedes(
        game.user_id,
        (#[trigger] before[i]).user_id,
    ) by {
        text::precedes_total(before[at].user_id, game.user_id);
        if i > at {
            assert(text::precedes(before[at].user_id, before[i].user_id));
            text::precedes_transitive(game.user_id, before[at].user_id, before[i].user_id);
        }
    }
    text::precedes_irreflexive(game.user_id);
    assert(!lists(before, game.user_id)) by {
        if lists(before, game.user_id) {
            let i = choose|i: int| 0 <= i < before.len() && (#[trigger] before[i]).user_id
                == game.user_id;
            assert(i < at || at <= i);
        }
    }
    games_are_counted(less, game.user_id);
    let held = games_of(less, game.user_id);
    unlisted_has_none(less, game.user_id);
    assert forall|i: int| 0 <= i < totals.len() implies adds_up(rows, #[trigger] totals[i]) by {
        if i < at {
            assert(totals[i] == before[i]);
            assert(text::precedes(before[i].user_id, game.user_id));
            nothing_changes(less, rows, before[i].user_id);
        } else if i > at {
            assert(totals[i] == before[i - 1]);
            assert(text::precedes(game.user_id, before[i - 1].user_id));
            nothing_changes(less, rows, before[i - 1].user_id);
        }
    }
    assert forall|i: int, j: int| 0 <= i < j < totals.len() implies text::precedes(
        (#[trigger] totals[i]).user_id,
        (#[trigger] totals[j]).user_id,
    ) by {
        if i < at {
            assert(totals[i] == before[i]);
            if j < at {
                assert(totals[j] == before[j]);
            } else if j > at {
                assert(totals[j] == before[j - 1]);
            }
        } else {
            assert(totals[j] == before[j - 1]);
            if i > at {
                assert(totals[i] == before[i - 1]);
            }
        }
    }
    assert forall|user_id: Seq<char>|
        #![trigger games_of(rows, user_id)]
        lists(totals, user_id) <==> games_of(rows, user_id) > 0 by {
        games_are_counted(less, user_id);
        let had = games_of(less, user_id);
        if lists(totals, user_id) && user_id != game.user_id {
            let i = choose|i: int| 0 <= i < totals.len() && (#[trigger] totals[i]).user_id
                == user_id;
            if i < at {
                assert(before[i].user_id == user_id);
            } else {
                assert(before[i - 1].user_id == user_id);
            }
            assert(lists(before, user_id));
        }
        if lists(before, user_id) {
            let i = choose|i: int| 0 <= i < before.len() && (#[trigger] before[i]).user_id
                == user_id;
            if i < at {
                assert(totals[i].user_id == user_id);
            } else {
                assert(totals[i + 1].user_id == user_id);
            }
        }
        if user_id == game.user_id {
            assert(totals[at].user_id == user_id);
        }
    }
}

/// Rebuilding the totals.
pub open spec fn rebuilding(updated_at_ms: i64) -> Workflow<(), ProjectionError> {
    |trace: Trace| projections::rebuild_totals_run(trace, updated_at_ms)
}

/// The rows that hold totals.
pub open spec fn total_records(totals: Seq<TotalsView>, updated_at_ms: i64) -> Seq<Record> {
    Seq::new(
        totals.len(),
        |i: int|
            model::assigned(
                Map::empty(),
                projections::insert_totals_op(totals[i], updated_at_ms).values,
            ),
    )
}

proof fn writing_asks(
    replies: Seq<Reply>,
    at: int,
    totals: Seq<TotalsView>,
    updated_at_ms: i64,
    index: int,
    wanted: int,
)
    requires
        0 <= at,
        0 <= index <= wanted < totals.len(),
        projections::write_totals_run(
            Trace { replies, at },
            totals,
            updated_at_ms,
            index,
        ).outcome is Done,
    ensures
        at + wanted - index < replies.len(),
        projections::write_totals_run(
            Trace { replies: replies.take(at + wanted - index), at },
            totals,
            updated_at_ms,
            index,
        ).outcome == Outcome::<(), ProjectionError>::Wait(
            Ask::Store(projections::insert_totals_op(totals[wanted], updated_at_ms)),
        ),
    decreases wanted - index,
{
    let place = at + wanted - index;
    if index < wanted {
        writing_asks(replies, at + 1, totals, updated_at_ms, index + 1, wanted);
        assert(replies.take(place)[at] == replies[at]);
    }
}

proof fn writing_ends(
    replies: Seq<Reply>,
    at: int,
    totals: Seq<TotalsView>,
    updated_at_ms: i64,
    index: int,
    count: int,
)
    requires
        0 <= at,
        0 <= index <= totals.len(),
        projections::write_totals_run(
            Trace { replies, at },
            totals,
            updated_at_ms,
            index,
        ).outcome is Done,
        at + totals.len() - index <= count <= replies.len(),
    ensures
        projections::write_totals_run(
            Trace { replies: replies.take(count), at },
            totals,
            updated_at_ms,
            index,
        ).outcome is Done,
    decreases totals.len() - index,
{
    if index < totals.len() {
        assert(replies.take(count)[at] == replies[at]);
        writing_ends(replies, at + 1, totals, updated_at_ms, index + 1, count);
    }
}

/// The store while a rebuild has written its first `count` totals.
proof fn totals_are_stored(
    updated_at_ms: i64,
    replies: Seq<Reply>,
    store: Store,
    totals: Seq<TotalsView>,
    count: int,
)
    requires
        model::served(rebuilding(updated_at_ms), replies, store),
        model::ending(rebuilding(updated_at_ms), replies) is Done,
        replies.len() > 1,
        replies[0] is Rows,
        projections::tally(replies[0]->Rows_0@) == Some(totals),
        0 <= count <= totals.len(),
    ensures
        2 + count <= replies.len(),
        model::store_at(rebuilding(updated_at_ms), replies, store, 2 + count).rows(
            "user_score_totals"@,
        ) == total_records(totals, updated_at_ms).take(count),
        model::store_at(rebuilding(updated_at_ms), replies, store, 2 + count).rows(
            "game_scores"@,
        ) == store.rows("game_scores"@),
    decreases count,
{
    let workflow = rebuilding(updated_at_ms);
    let all = total_records(totals, updated_at_ms);
    let select = Op::select("game_scores"@);
    let delete = Op::delete("user_score_totals"@);
    reveal_strlit("game_scores");
    reveal_strlit("user_score_totals");
    assert("game_scores"@.len() == 11);
    assert("user_score_totals"@.len() == 17);
    assert(model::asked(workflow, replies, 0) == Some(Ask::Store(select)));
    assert(model::served_at(workflow, replies, store, 0));
    assert(replies.take(1)[0] == replies[0]);
    assert(model::asked(workflow, replies, 1) == Some(Ask::Store(delete)));
    assert(model::served_at(workflow, replies, store, 1));
    if count == 0 {
        assert(model::store_at(workflow, replies, store, 1) == store);
        nothing_is_left(store.rows("user_score_totals"@), delete.filters);
        assert(all.take(0) =~= Seq::empty());
    } else {
        let last = count - 1;
        totals_are_stored(updated_at_ms, replies, store, totals, last);
        writing_asks(replies, 2, totals, updated_at_ms, 0, last);
        assert(replies.take(2 + last)[0] == replies[0]);
        assert(replies.take(2 + last)[1] == replies[1]);
        let op = projections::insert_totals_op(totals[last], updated_at_ms);
        assert(model::asked(workflow, replies, 2 + last) == Some(Ask::Store(op)));
        let before = model::store_at(workflow, replies, store, 2 + last);
        assert(model::store_at(workflow, replies, store, 2 + count) == model::executed(
            before,
            op,
        ).0);
        assert(all.take(count) =~= all.take(last).push(all[last]));
    }
}

pub proof fn nothing_is_left(rows: Seq<Record>, filters: Seq<(Seq<char>, Relation, Datum)>)
    requires
        filters.len() == 0,
    ensures
        model::left(rows, filters) == Seq::<Record>::empty(),
    decreases rows.len(),
{
    if rows.len() > 0 {
        nothing_is_left(rows.drop_last(), filters);
    }
}

/// Rebuilt totals are what the stored scores add up to, whatever totals were stored before.
pub proof fn rebuilt_totals_replace_the_old(
    updated_at_ms: i64,
    replies: Seq<Reply>,
    store: Store,
)
    requires
        model::served(rebuilding(updated_at_ms), replies, store),
        model::ending(rebuilding(updated_at_ms), replies) is Done,
    ensures
        ({
            let after = model::store_after(rebuilding(updated_at_ms), replies, store);
            let totals = projections::tally(replies[0]->Rows_0@);
            &&& model::all_shown(
                replies[0]->Rows_0@,
                model::found(store.rows("game_scores"@), Seq::empty()),
            )
            &&& totals is Some
            &&& after.rows("user_score_totals"@) == total_records(totals->0, updated_at_ms)
            &&& after.rows("game_scores"@) == store.rows("game_scores"@)
        }),
{
    let workflow = rebuilding(updated_at_ms);
    assert(replies =~= replies.take(replies.len() as int));
    assert(model::asked(workflow, replies, 0) == Some(Ask::Store(Op::select("game_scores"@))));
    assert(model::served_at(workflow, replies, store, 0));
    let totals = projections::tally(replies[0]->Rows_0@)->0;
    let count = totals.len() as int;
    totals_are_stored(updated_at_ms, replies, store, totals, count);
    let all = total_records(totals, updated_at_ms);
    assert(all.take(count) =~= all);
    assert(Op::select("game_scores"@).filters =~= Seq::empty());
    if replies.len() > 2 + count {
        writing_ends(replies, 2, totals, updated_at_ms, 0, 2 + count);
        assert(replies.take(2 + count)[0] == replies[0]);
        assert(replies.take(2 + count)[1] == replies[1]);
        assert(model::served_at(workflow, replies, store, 2 + count));
    }
}

} // verus!
