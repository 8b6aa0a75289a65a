//! A workflow's stages: what each does to the store that it finds.
use crate::model::{self, Store, Workflow};
use crate::script::{self, Ask, Outcome, Reply, Run, Trace};
use crate::steady;
use crate::store::{Op, Row};
use vstd::prelude::*;

verus! {

/// What a stage that began at `from` does on the first `place` replies.
pub open spec fn stage_run<T, E>(
    stage: Workflow<T, E>,
    replies: Seq<Reply>,
    from: int,
    place: int,
) -> Run<T, E> {
    stage(Trace { replies: replies.take(place), at: from })
}

/// The store after a stage that began at `from` has received the replies before `place`.
pub open spec fn stage_store<T, E>(
    stage: Workflow<T, E>,
    replies: Seq<Reply>,
    from: int,
    store: Store,
    place: int,
) -> Store
    decreases place - from,
{
    if place <= from {
        store
    } else {
        let before = stage_store(stage, replies, from, store, place - 1);
        match stage_run(stage, replies, from, place - 1).outcome {
            Outcome::Wait(Ask::Store(op)) => model::executed(before, op).0,
            _ => before,
        }
    }
}

/// Whether the reply at `place` was asked for and is the store's where it was asked of the store.
pub open spec fn stage_served<T, E>(
    stage: Workflow<T, E>,
    replies: Seq<Reply>,
    from: int,
    store: Store,
    place: int,
) -> bool {
    match stage_run(stage, replies, from, place).outcome {
        Outcome::Wait(Ask::Store(op)) => replies[place] matches Reply::Rows(rows)
            && model::all_shown(
            rows@,
            model::executed(stage_store(stage, replies, from, store, place), op).1,
        ),
        Outcome::Wait(_) => true,
        _ => false,
    }
}

/// Whether a stage that finds `store` uses the replies from `from` up to `to`, ends in `value`, and
/// leaves `after`.
pub open spec fn played<T, E>(
    stage: Workflow<T, E>,
    replies: Seq<Reply>,
    from: int,
    store: Store,
    value: T,
    to: int,
    after: Store,
) -> bool {
    &&& 0 <= from <= to <= replies.len()
    &&& stage(Trace { replies, at: from }) == script::done::<T, E>(
        Trace { replies, at: to },
        value,
    )
    &&& forall|place: int|
        from <= place < to ==> #[trigger] stage_served(stage, replies, from, store, place)
    &&& after == stage_store(stage, replies, from, store, to)
}

/// Whether a stage reads its replies in order.
pub open spec fn in_order<T, E>(stage: Workflow<T, E>, replies: Seq<Reply>, from: int) -> bool {
    forall|count: int|
        0 <= count <= replies.len() ==> steady::steady(
            stage(Trace { replies, at: from }),
            #[trigger] stage_run(stage, replies, from, count),
            replies,
            from,
            count,
        )
}

/// A workflow that a store serves to its end is played as one stage.
pub proof fn whole_is_played<T, E>(
    workflow: Workflow<T, E>,
    replies: Seq<Reply>,
    store: Store,
    value: T,
)
    requires
        in_order(workflow, replies, 0),
        model::served(workflow, replies, store),
        model::ending(workflow, replies) == Outcome::<T, E>::Done(value),
    ensures
        played(
            workflow,
            replies,
            0,
            store,
            value,
            replies.len() as int,
            model::store_after(workflow, replies, store),
        ),
{
    let count = replies.len() as int;
    assert(replies.take(count) =~= replies);
    assert(stage_run(workflow, replies, 0, count) == workflow(Trace { replies, at: 0 }));
    let to = workflow(Trace { replies, at: 0 }).trace.at;
    if to < count {
        assert(stage_run(workflow, replies, 0, to).outcome is Done);
        assert(model::served_at(workflow, replies, store, to));
    }
    assert forall|place: int| 0 <= place <= count implies #[trigger] stage_store(
        workflow,
        replies,
        0,
        store,
        place,
    ) == model::store_at(workflow, replies, store, place) by {
        stores_agree(workflow, replies, store, place);
    }
    assert forall|place: int| 0 <= place < count implies #[trigger] stage_served(
        workflow,
        replies,
        0,
        store,
        place,
    ) by {
        assert(model::served_at(workflow, replies, store, place));
        assert(stage_store(workflow, replies, 0, store, place) == model::store_at(
            workflow,
            replies,
            store,
            place,
        ));
    }
}

proof fn stores_agree<T, E>(
    workflow: Workflow<T, E>,
    replies: Seq<Reply>,
    store: Store,
    place: int,
)
    requires
        0 <= place,
    ensures
        stage_store(workflow, replies, 0, store, place) == model::store_at(
            workflow,
            replies,
            store,
            place,
        ),
    decreases place,
{
    if place > 0 {
        stores_agree(workflow, replies, store, place - 1);
    }
}

/// A stage that ends at once leaves the store as it found it.
pub proof fn ended<T, E>(
    stage: Workflow<T, E>,
    replies: Seq<Reply>,
    from: int,
    store: Store,
    value: T,
    to: int,
    after: Store,
    result: T,
)
    requires
        played(stage, replies, from, store, value, to, after),
        stage(Trace { replies, at: from }) == script::done::<T, E>(
            Trace { replies, at: from },
            result,
        ),
    ensures
        to == from,
        value == result,
        after == store,
{
}

/// The stores of two stages agree where they ask the same.
proof fn same_asks<T, U, E, F>(
    stage: Workflow<T, E>,
    other: Workflow<U, F>,
    replies: Seq<Reply>,
    from: int,
    other_from: int,
    store: Store,
    other_store: Store,
    place: int,
)
    requires
        from <= other_from <= place,
        stage_store(stage, replies, from, store, other_from) == other_store,
        forall|earlier: int|
            other_from <= earlier < place ==> (#[trigger] stage_run(
                stage,
                replies,
                from,
                earlier,
            ).outcome matches Outcome::Wait(ask) && stage_run(
                other,
                replies,
                other_from,
                earlier,
            ).outcome == Outcome::<U, F>::Wait(ask)),
    ensures
        stage_store(stage, replies, from, store, place) == stage_store(
            other,
            replies,
            other_from,
            other_store,
            place,
        ),
    decreases place - other_from,
{
    if other_from < place {
        same_asks(stage, other, replies, from, other_from, store, other_store, place - 1);
        assert(stage_run(stage, replies, from, place - 1).outcome is Wait);
    }
}

/// A stage that runs one statement first is played as the statement and then the rest.
pub proof fn queried<T, E>(
    stage: Workflow<T, E>,
    op: Op,
    rest: spec_fn(Seq<Row>, Trace) -> Run<T, E>,
    replies: Seq<Reply>,
    from: int,
    store: Store,
    value: T,
    to: int,
    after: Store,
) -> (rows: Seq<Row>)
    requires
        played(stage, replies, from, store, value, to, after),
        from < to,
        forall|trace: Trace| #[trigger] stage(trace) == script::query(trace, op, rest),
    ensures
        model::all_shown(rows, model::executed(store, op).1),
        played(
            |trace: Trace| rest(rows, trace),
            replies,
            from + 1,
            model::executed(store, op).0,
            value,
            to,
            after,
        ),
{
    let start = Trace { replies, at: from };
    assert(from < replies.len() && replies[from] is Rows);
    let rows = replies[from]->Rows_0@;
    let other: Workflow<T, E> = |trace: Trace| rest(rows, trace);
    let next = model::executed(store, op).0;
    assert(stage(start) == other(start.next()));
    assert(stage_run(stage, replies, from, from).outcome == Outcome::<T, E>::Wait(Ask::Store(op)));
    assert(stage_served(stage, replies, from, store, from));
    assert(stage_store(stage, replies, from, store, from + 1) == next);
    assert forall|place: int| from < place <= replies.len() implies #[trigger] stage_run(
        stage,
        replies,
        from,
        place,
    ) == stage_run(other, replies, from + 1, place) by {
        let cut = Trace { replies: replies.take(place), at: from };
        assert(cut.reply() == replies[from]);
        assert(stage(cut) == script::query(cut, op, rest));
    }
    assert forall|place: int| from + 1 <= place <= to implies #[trigger] stage_store(
        stage,
        replies,
        from,
        store,
        place,
    ) == stage_store(other, replies, from + 1, next, place) by {
        assert forall|earlier: int| from + 1 <= earlier < place implies (#[trigger] stage_run(
            stage,
            replies,
            from,
            earlier,
        ).outcome matches Outcome::Wait(ask) && stage_run(
            other,
            replies,
            from + 1,
            earlier,
        ).outcome == Outcome::<T, E>::Wait(ask)) by {
            assert(stage_served(stage, replies, from, store, earlier));
        }
        same_asks(stage, other, replies, from, from + 1, store, next, place);
    }
    assert forall|place: int| from + 1 <= place < to implies #[trigger] stage_served(
        other,
        replies,
        from + 1,
        next,
        place,
    ) by {
        assert(stage_served(stage, replies, from, store, place));
        assert(stage_run(stage, replies, from, place) == stage_run(
            other,
            replies,
            from + 1,
            place,
        ));
        assert(stage_store(stage, replies, from, store, place) == stage_store(
            other,
            replies,
            from + 1,
            next,
            place,
        ));
    }
    assert(stage_store(stage, replies, from, store, to) == stage_store(
        other,
        replies,
        from + 1,
        next,
        to,
    ));
    rows
}

/// A stage that makes one request of something else than the store is played as the request and
/// then the rest.
pub proof fn answered<T, E>(
    stage: Workflow<T, E>,
    ask: Ask,
    rest: spec_fn(Reply, Trace) -> Run<T, E>,
    replies: Seq<Reply>,
    from: int,
    store: Store,
    value: T,
    to: int,
    after: Store,
)
    requires
        played(stage, replies, from, store, value, to, after),
        from < to,
        !(ask is Store),
        forall|trace: Trace| #[trigger]
            stage(trace) == (if trace.spent() {
                Run { outcome: Outcome::Wait(ask), trace }
            } else {
                rest(trace.reply(), trace.next())
            }),
    ensures
        played(
            |trace: Trace| rest(replies[from], trace),
            replies,
            from + 1,
            store,
            value,
            to,
            after,
        ),
{
    let start = Trace { replies, at: from };
    let other: Workflow<T, E> = |trace: Trace| rest(replies[from], trace);
    assert(stage(start) == other(start.next()));
    assert(stage_run(stage, replies, from, from).outcome == Outcome::<T, E>::Wait(ask));
    assert(stage_store(stage, replies, from, store, from) == store);
    assert(stage_store(stage, replies, from, store, from + 1) == store);
    assert forall|place: int| from < place <= replies.len() implies #[trigger] stage_run(
        stage,
        replies,
        from,
        place,
    ) == stage_run(other, replies, from + 1, place) by {
        let cut = Trace { replies: replies.take(place), at: from };
        assert(cut.reply() == replies[from]);
        assert(stage(cut) == rest(cut.reply(), cut.next()));
    }
    assert forall|place: int| from + 1 <= place <= to implies #[trigger] stage_store(
        stage,
        replies,
        from,
        store,
        place,
    ) == stage_store(other, replies, from + 1, store, place) by {
        assert forall|earlier: int| from + 1 <= earlier < place implies (#[trigger] stage_run(
            stage,
            replies,
            from,
            earlier,
        ).outcome matches Outcome::Wait(ask) && stage_run(
            other,
            replies,
            from + 1,
            earlier,
        ).outcome == Outcome::<T, E>::Wait(ask)) by {
            assert(stage_served(stage, replies, from, store, earlier));
        }
        same_asks(stage, other, replies, from, from + 1, store, store, place);
    }
    assert forall|place: int| from + 1 <= place < to implies #[trigger] stage_served(
        other,
        replies,
        from + 1,
        store,
        place,
    ) by {
        assert(stage_served(stage, replies, from, store, place));
        assert(stage_run(stage, replies, from, place) == stage_run(
            other,
            replies,
            from + 1,
            place,
        ));
        assert(stage_store(stage, replies, from, store, place) == stage_store(
            other,
            replies,
            from + 1,
            store,
            place,
        ));
    }
    assert(stage_store(stage, replies, from, store, to) == stage_store(
        other,
        replies,
        from + 1,
        store,
        to,
    ));
}

/// Whether a stage waits while another waits, and goes on where the other ends in a result.
pub open spec fn goes_on<T, U, E, F>(
    stage: Workflow<U, F>,
    first: Workflow<T, E>,
    rest: spec_fn(T, Trace) -> Run<U, F>,
) -> bool {
    forall|trace: Trace|
        match first(trace).outcome {
            Outcome::Wait(ask) => (#[trigger] stage(trace)).outcome == Outcome::<U, F>::Wait(ask),
            Outcome::Done(value) => stage(trace) == rest(value, first(trace).trace),
            _ => true,
        }
}

/// A stage that goes on where another has ended is played as the one and then the other.
pub proof fn followed<T, U, E, F>(
    stage: Workflow<U, F>,
    first: Workflow<T, E>,
    rest: spec_fn(T, Trace) -> Run<U, F>,
    replies: Seq<Reply>,
    from: int,
    store: Store,
    value: U,
    to: int,
    after: Store,
) -> (middle: (T, int, Store))
    requires
        played(stage, replies, from, store, value, to, after),
        in_order(first, replies, from),
        goes_on(stage, first, rest),
        first(Trace { replies, at: from }).outcome is Done,
        first(Trace { replies, at: from }).trace.at <= to,
    ensures
        played(first, replies, from, store, middle.0, middle.1, middle.2),
        played(
            |trace: Trace| rest(middle.0, trace),
            replies,
            middle.1,
            middle.2,
            value,
            to,
            after,
        ),
{
    let start = Trace { replies, at: from };
    let full = first(start);
    let result = full.outcome->Done_0;
    let mid = full.trace.at;
    let count = replies.len() as int;
    assert(replies.take(count) =~= replies);
    assert(stage_run(first, replies, from, count) == full);
    assert(stage(start) == rest(result, full.trace));
    let other: Workflow<U, F> = |trace: Trace| rest(result, trace);
    let between = stage_store(first, replies, from, store, mid);
    assert forall|place: int| from <= place < mid implies (#[trigger] stage_run(
        stage,
        replies,
        from,
        place,
    ).outcome matches Outcome::Wait(ask) && stage_run(first, replies, from, place).outcome
        == Outcome::<T, E>::Wait(ask)) by {
        let cut = stage_run(first, replies, from, place);
        assert(cut.outcome is Wait);
        assert(stage(Trace { replies: replies.take(place), at: from }).outcome is Wait);
    }
    assert forall|place: int| mid <= place <= count implies #[trigger] stage_run(
        stage,
        replies,
        from,
        place,
    ) == stage_run(other, replies, mid, place) by {
        let cut = stage_run(first, replies, from, place);
        assert(cut.outcome == full.outcome);
        assert(stage(Trace { replies: replies.take(place), at: from }) == rest(result, cut.trace));
    }
    assert forall|place: int| from <= place <= mid implies #[trigger] stage_store(
        stage,
        replies,
        from,
        store,
        place,
    ) == stage_store(first, replies, from, store, place) by {
        same_asks(stage, first, replies, from, from, store, store, place);
    }
    assert forall|place: int| from <= place < mid implies #[trigger] stage_served(
        first,
        replies,
        from,
        store,
        place,
    ) by {
        assert(stage_served(stage, replies, from, store, place));
        assert(stage_run(stage, replies, from, place).outcome is Wait);
        assert(stage_store(stage, replies, from, store, place) == stage_store(
            first,
            replies,
            from,
            store,
            place,
        ));
    }
    assert(stage_store(stage, replies, from, store, mid) == between);
    assert forall|place: int| mid <= place <= to implies #[trigger] stage_store(
        stage,
        replies,
        from,
        store,
        place,
    ) == stage_store(other, replies, mid, between, place) by {
        assert forall|earlier: int| mid <= earlier < place implies (#[trigger] stage_run(
            stage,
            replies,
            from,
            earlier,
        ).outcome matches Outcome::Wait(ask) && stage_run(
            other,
            replies,
            mid,
            earlier,
        ).outcome == Outcome::<U, F>::Wait(ask)) by {
            assert(stage_served(stage, replies, from, store, earlier));
        }
        same_asks(stage, other, replies, from, mid, store, between, place);
    }
    assert forall|place: int| mid <= place < to implies #[trigger] stage_served(
        other,
        replies,
        mid,
        between,
        place,
    ) by {
        assert(stage_served(stage, replies, from, store, place));
        assert(stage_run(stage, replies, from, place) == stage_run(other, replies, mid, place));
        assert(stage_store(stage, replies, from, store, place) == stage_store(
            other,
            replies,
            mid,
            between,
            place,
        ));
    }
    assert(stage_store(stage, replies, from, store, to) == stage_store(
        other,
        replies,
        mid,
        between,
        to,
    ));
    (result, mid, between)
}

/// A chain is played as its first part and then the rest.
pub proof fn chained<T, U, E>(
    stage: Workflow<U, E>,
    first: Workflow<T, E>,
    rest: spec_fn(T, Trace) -> Run<U, E>,
    replies: Seq<Reply>,
    from: int,
    store: Store,
    value: U,
    to: int,
    after: Store,
) -> (middle: (T, int, Store))
    requires
        played(stage, replies, from, store, value, to, after),
        in_order(first, replies, from),
        forall|trace: Trace| #[trigger] stage(trace) == script::chain(first(trace), rest),
        first(Trace { replies, at: from }).trace.at <= to,
    ensures
        played(first, replies, from, store, middle.0, middle.1, middle.2),
        played(
            |trace: Trace| rest(middle.0, trace),
            replies,
            middle.1,
            middle.2,
            value,
            to,
            after,
        ),
{
    let start = Trace { replies, at: from };
    assert(stage(start) == script::chain(first(start), rest));
    assert forall|trace: Trace|
        match first(trace).outcome {
            Outcome::Wait(ask) => (#[trigger] stage(trace)).outcome == Outcome::<U, E>::Wait(ask),
            Outcome::Done(value) => stage(trace) == rest(value, first(trace).trace),
            _ => true,
        } by {
        assert(stage(trace) == script::chain(first(trace), rest));
    }
    followed(stage, first, rest, replies, from, store, value, to, after)
}

/// A transaction that ends in a result is played as its beginning, its body and its end.
pub proof fn committed<T, E>(
    body: Workflow<T, E>,
    replies: Seq<Reply>,
    from: int,
    store: Store,
    value: T,
    to: int,
    after: Store,
) -> (middle: (int, Store))
    requires
        played(
            |trace: Trace| script::transaction(trace, body),
            replies,
            from,
            store,
            value,
            to,
            after,
        ),
        from < to,
        in_order(body, replies, from + 1),
    ensures
        played(
            body,
            replies,
            from + 1,
            model::executed(store, Op::begin()).0,
            value,
            middle.0,
            middle.1,
        ),
        after == model::executed(middle.1, Op::commit()).0,
        to == middle.0 + 1,
{
    let stage: Workflow<T, E> = |trace: Trace| script::transaction(trace, body);
    let tail = |rows: Seq<Row>, trace: Trace| script::settled(body(trace));
    let begun = model::executed(store, Op::begin()).0;
    let rows = queried(stage, Op::begin(), tail, replies, from, store, value, to, after);
    let second: Workflow<T, E> = |trace: Trace| tail(rows, trace);
    let rest = |result: T, trace: Trace|
        script::perform::<T, E>(trace, Op::commit(), |trace: Trace| script::done(trace, result));
    let start = Trace { replies, at: from + 1 };
    assert(second(start) == script::settled(body(start)));
    assert(body(start).outcome is Done);
    let count = replies.len() as int;
    assert(replies.take(count) =~= replies);
    assert(stage_run(body, replies, from + 1, count) == body(start));
    let (result, mid, between) = followed(
        second,
        body,
        rest,
        replies,
        from + 1,
        begun,
        value,
        to,
        after,
    );
    let last: Workflow<T, E> = |trace: Trace| rest(result, trace);
    let end = |rows: Seq<Row>, trace: Trace| script::done::<T, E>(trace, result);
    let ended_rows = queried(last, Op::commit(), end, replies, mid, between, value, to, after);
    ended(
        |trace: Trace| end(ended_rows, trace),
        replies,
        mid + 1,
        model::executed(between, Op::commit()).0,
        value,
        to,
        after,
        result,
    );
    (mid, between)
}

/// Stages that do the same are played alike.
pub proof fn same_stage<T, E>(
    stage: Workflow<T, E>,
    other: Workflow<T, E>,
    replies: Seq<Reply>,
    from: int,
    store: Store,
    value: T,
    to: int,
    after: Store,
)
    requires
        played(stage, replies, from, store, value, to, after),
        forall|trace: Trace| #[trigger] stage(trace) == other(trace),
    ensures
        played(other, replies, from, store, value, to, after),
{
    assert(stage =~= other);
}

/// Whether a stage that began at `from` on `store` comes to an end, and every reply that it waited
/// for is the store's where it was asked of the store, and fits what was asked.
pub open spec fn underway<T, E>(
    stage: Workflow<T, E>,
    replies: Seq<Reply>,
    from: int,
    store: Store,
    fits: spec_fn(Ask, Reply) -> bool,
) -> bool {
    &&& 0 <= from <= replies.len()
    &&& !(stage(Trace { replies, at: from }).outcome is Wait)
    &&& forall|place: int|
        from <= place < replies.len() && stage_run(stage, replies, from, place).outcome is Wait
            ==> #[trigger] stage_served(stage, replies, from, store, place) && fits(
            stage_run(stage, replies, from, place).outcome->Wait_0,
            replies[place],
        )
}

/// Any reply will do.
pub open spec fn anything() -> spec_fn(Ask, Reply) -> bool {
    |ask: Ask, reply: Reply| true
}

/// Whether every reply fits what was asked.
pub open spec fn met<T, E>(
    workflow: Workflow<T, E>,
    replies: Seq<Reply>,
    fits: spec_fn(Ask, Reply) -> bool,
) -> bool {
    forall|place: int|
        0 <= place < replies.len() ==> ((#[trigger] model::asked(
            workflow,
            replies,
            place,
        )) matches Some(ask) ==> fits(ask, replies[place]))
}

/// A workflow that a store serves and that comes to an end is underway from its beginning.
pub proof fn whole_is_underway<T, E>(
    workflow: Workflow<T, E>,
    replies: Seq<Reply>,
    store: Store,
    fits: spec_fn(Ask, Reply) -> bool,
)
    requires
        model::served(workflow, replies, store),
        met(workflow, replies, fits),
        !(model::ending(workflow, replies) is Wait),
    ensures
        underway(workflow, replies, 0, store, fits),
{
    assert forall|place: int|
        0 <= place < replies.len() && stage_run(workflow, replies, 0, place).outcome
            is Wait implies #[trigger] stage_served(workflow, replies, 0, store, place) && fits(
        stage_run(workflow, replies, 0, place).outcome->Wait_0,
        replies[place],
    ) by {
        assert(model::served_at(workflow, replies, store, place));
        assert(model::asked(workflow, replies, place) is Some);
        stores_agree(workflow, replies, store, place);
    }
}

/// The stores of two stages agree from where they do the same.
proof fn same_runs<T, E, U, F>(
    stage: Workflow<T, E>,
    other: Workflow<U, F>,
    replies: Seq<Reply>,
    from: int,
    other_from: int,
    store: Store,
    other_store: Store,
    place: int,
)
    requires
        from <= other_from <= place,
        stage_store(stage, replies, from, store, other_from) == other_store,
        forall|earlier: int|
            other_from <= earlier < place ==> ((#[trigger] stage_run(
                stage,
                replies,
                from,
                earlier,
            )).outcome matches Outcome::Wait(ask) ==> stage_run(
                other,
                replies,
                other_from,
                earlier,
            ).outcome == Outcome::<U, F>::Wait(ask)),
        forall|earlier: int|
            other_from <= earlier < place && !((#[trigger] stage_run(
                stage,
                replies,
                from,
                earlier,
            )).outcome is Wait) ==> !(stage_run(
                other,
                replies,
                other_from,
                earlier,
            ).outcome is Wait),
    ensures
        stage_store(stage, replies, from, store, place) == stage_store(
            other,
            replies,
            other_from,
            other_store,
            place,
        ),
    decreases place - other_from,
{
    if place > other_from {
        same_runs(stage, other, replies, from, other_from, store, other_store, place - 1);
        let run = stage_run(stage, replies, from, place - 1);
    }
}

/// A stage that runs one statement goes on with what the store shows.
pub proof fn asks_store<T, E>(
    stage: Workflow<T, E>,
    op: Op,
    rest: spec_fn(Seq<Row>, Trace) -> Run<T, E>,
    replies: Seq<Reply>,
    from: int,
    store: Store,
    fits: spec_fn(Ask, Reply) -> bool,
) -> (rows: Seq<Row>)
    requires
        underway(stage, replies, from, store, fits),
        forall|trace: Trace| #[trigger] stage(trace) == script::query(trace, op, rest),
    ensures
        model::all_shown(rows, model::executed(store, op).1),
        from < replies.len(),
        replies[from] matches Reply::Rows(held) && held@ == rows,
        underway(
            |trace: Trace| rest(rows, trace),
            replies,
            from + 1,
            model::executed(store, op).0,
            fits,
        ),
        stage(Trace { replies, at: from }) == rest(rows, Trace { replies, at: from + 1 }),
        forall|place: int|
            from < place <= replies.len() ==> #[trigger] stage_store(
                stage,
                replies,
                from,
                store,
                place,
            ) == stage_store(
                |trace: Trace| rest(rows, trace),
                replies,
                from + 1,
                model::executed(store, op).0,
                place,
            ),
{
    let start = Trace { replies, at: from };
    assert(stage(start) == script::query(start, op, rest));
    assert(from < replies.len());
    let next = model::executed(store, op).0;
    let waiting = Trace { replies: replies.take(from), at: from };
    assert(stage(waiting) == script::query(waiting, op, rest));
    assert(stage_run(stage, replies, from, from).outcome == Outcome::<T, E>::Wait(Ask::Store(op)));
    assert(stage_served(stage, replies, from, store, from));
    let rows = replies[from]->Rows_0@;
    let other: Workflow<T, E> = |trace: Trace| rest(rows, trace);
    assert(stage_store(stage, replies, from, store, from) == store);
    assert(stage_store(stage, replies, from, store, from + 1) == next);
    assert forall|place: int| from < place <= replies.len() implies #[trigger] stage_run(
        stage,
        replies,
        from,
        place,
    ) == stage_run(other, replies, from + 1, place) by {
        let cut = Trace { replies: replies.take(place), at: from };
        assert(cut.reply() == replies[from]);
        assert(stage(cut) == script::query(cut, op, rest));
    }
    assert forall|place: int|
        from + 1 <= place < replies.len() && stage_run(other, replies, from + 1, place).outcome
            is Wait implies #[trigger] stage_served(other, replies, from + 1, next, place) && fits(
        stage_run(other, replies, from + 1, place).outcome->Wait_0,
        replies[place],
    ) by {
        assert(stage_run(stage, replies, from, place) == stage_run(
            other,
            replies,
            from + 1,
            place,
        ));
        assert(stage_served(stage, replies, from, store, place));
        same_runs(stage, other, replies, from, from + 1, store, next, place);
    }
    assert forall|place: int| from < place <= replies.len() implies #[trigger] stage_store(
        stage,
        replies,
        from,
        store,
        place,
    ) == stage_store(other, replies, from + 1, next, place) by {
        same_runs(stage, other, replies, from, from + 1, store, next, place);
    }
    rows
}

/// A stage that makes one request of something else than the store goes on with the reply.
pub proof fn asks_outside<T, E>(
    stage: Workflow<T, E>,
    ask: Ask,
    rest: spec_fn(Reply, Trace) -> Run<T, E>,
    replies: Seq<Reply>,
    from: int,
    store: Store,
    fits: spec_fn(Ask, Reply) -> bool,
)
    requires
        underway(stage, replies, from, store, fits),
        !(ask is Store),
        forall|trace: Trace| #[trigger]
            stage(trace) == (if trace.spent() {
                Run { outcome: Outcome::Wait(ask), trace }
            } else {
                rest(trace.reply(), trace.next())
            }),
    ensures
        from < replies.len(),
        fits(ask, replies[from]),
        underway(|trace: Trace| rest(replies[from], trace), replies, from + 1, store, fits),
        stage(Trace { replies, at: from }) == rest(replies[from], Trace { replies, at: from + 1 }),
        forall|place: int|
            from < place <= replies.len() ==> #[trigger] stage_store(
                stage,
                replies,
                from,
                store,
                place,
            ) == stage_store(
                |trace: Trace| rest(replies[from], trace),
                replies,
                from + 1,
                store,
                place,
            ),
{
    let start = Trace { replies, at: from };
    assert(stage(start) == (if start.spent() {
        Run { outcome: Outcome::Wait(ask), trace: start }
    } else {
        rest(start.reply(), start.next())
    }));
    assert(from < replies.len());
    let waiting = Trace { replies: replies.take(from), at: from };
    assert(waiting.spent());
    assert(stage(waiting).outcome == Outcome::<T, E>::Wait(ask));
    let other: Workflow<T, E> = |trace: Trace| rest(replies[from], trace);
    assert(stage_run(stage, replies, from, from).outcome == Outcome::<T, E>::Wait(ask));
    assert(stage_served(stage, replies, from, store, from));
    assert(stage_store(stage, replies, from, store, from) == store);
    assert(stage_store(stage, replies, from, store, from + 1) == store);
    assert forall|place: int| from < place <= replies.len() implies #[trigger] stage_run(
        stage,
        replies,
        from,
        place,
    ) == stage_run(other, replies, from + 1, place) by {
        let cut = Trace { replies: replies.take(place), at: from };
        assert(cut.reply() == replies[from]);
        assert(stage(cut) == rest(cut.reply(), cut.next()));
    }
    assert forall|place: int|
        from + 1 <= place < replies.len() && stage_run(other, replies, from + 1, place).outcome
            is Wait implies #[trigger] stage_served(other, replies, from + 1, store, place) && fits(
        stage_run(other, replies, from + 1, place).outcome->Wait_0,
        replies[place],
    ) by {
        assert(stage_run(stage, replies, from, place) == stage_run(
            other,
            replies,
            from + 1,
            place,
        ));
        assert(stage_served(stage, replies, from, store, place));
        same_runs(stage, other, replies, from, from + 1, store, store, place);
    }
    assert forall|place: int| from < place <= replies.len() implies #[trigger] stage_store(
        stage,
        replies,
        from,
        store,
        place,
    ) == stage_store(other, replies, from + 1, store, place) by {
        same_runs(stage, other, replies, from, from + 1, store, store, place);
    }
}

/// A part that reads its replies in order waits only until it has ended.
proof fn waits_until_the_end<T, E>(
    first: Workflow<T, E>,
    replies: Seq<Reply>,
    from: int,
    place: int,
    later: int,
)
    requires
        in_order(first, replies, from),
        0 <= from <= place <= later <= replies.len(),
        stage_run(first, replies, from, later).outcome is Wait,
    ensures
        stage_run(first, replies, from, place).outcome is Wait,
{
    let full = first(Trace { replies, at: from });
    let cut = stage_run(first, replies, from, place);
    let wider = stage_run(first, replies, from, later);
}

/// A stage that goes on where another has ended is underway as the one, and, where that ends in a
/// result, as the rest.
pub proof fn goes_through<T, U, E, F>(
    stage: Workflow<U, F>,
    first: Workflow<T, E>,
    rest: spec_fn(T, Trace) -> Run<U, F>,
    replies: Seq<Reply>,
    from: int,
    store: Store,
    fits: spec_fn(Ask, Reply) -> bool,
)
    requires
        underway(stage, replies, from, store, fits),
        in_order(first, replies, from),
        goes_on(stage, first, rest),
    ensures
        underway(first, replies, from, store, fits),
        first(Trace { replies, at: from }).outcome matches Outcome::Done(value) ==> ({
            let mid = first(Trace { replies, at: from }).trace.at;
            let between = stage_store(first, replies, from, store, mid);
            &&& played(first, replies, from, store, value, mid, between)
            &&& underway(|trace: Trace| rest(value, trace), replies, mid, between, fits)
            &&& stage(Trace { replies, at: from }) == rest(value, Trace { replies, at: mid })
            &&& forall|place: int|
                mid <= place <= replies.len() ==> #[trigger] stage_store(
                    stage,
                    replies,
                    from,
                    store,
                    place,
                ) == stage_store(
                    |trace: Trace| rest(value, trace),
                    replies,
                    mid,
                    between,
                    place,
                )
        }),
{
    let start = Trace { replies, at: from };
    let full = first(start);
    let count = replies.len() as int;
    assert(replies.take(count) =~= replies);
    assert(stage_run(first, replies, from, count) == full);
    assert(!(stage(start).outcome is Wait));
    assert(!(full.outcome is Wait));
    assert forall|place: int|
        from <= place < replies.len() && stage_run(first, replies, from, place).outcome
            is Wait implies #[trigger] stage_served(first, replies, from, store, place) && fits(
        stage_run(first, replies, from, place).outcome->Wait_0,
        replies[place],
    ) by {
        let cut = Trace { replies: replies.take(place), at: from };
        assert(stage(cut).outcome is Wait);
        assert(stage_served(stage, replies, from, store, place));
        assert forall|earlier: int| from <= earlier < place implies (#[trigger] stage_run(
            stage,
            replies,
            from,
            earlier,
        ).outcome matches Outcome::Wait(ask) && stage_run(
            first,
            replies,
            from,
            earlier,
        ).outcome == Outcome::<T, E>::Wait(ask)) by {
            waits_until_the_end(first, replies, from, earlier, place);
            assert(stage(Trace { replies: replies.take(earlier), at: from }).outcome is Wait);
        }
        same_asks(stage, first, replies, from, from, store, store, place);
    }
    if full.outcome is Done {
        let value = full.outcome->Done_0;
        let mid = full.trace.at;
        let between = stage_store(first, replies, from, store, mid);
        let other: Workflow<U, F> = |trace: Trace| rest(value, trace);
        assert(mid <= count);
        assert forall|place: int| from <= place < mid implies (#[trigger] stage_run(
            stage,
            replies,
            from,
            place,
        ).outcome matches Outcome::Wait(ask) && stage_run(first, replies, from, place).outcome
            == Outcome::<T, E>::Wait(ask)) by {
            let cut = stage_run(first, replies, from, place);
            assert(cut.outcome is Wait);
            assert(stage(Trace { replies: replies.take(place), at: from }).outcome is Wait);
        }
        assert forall|place: int| from <= place < mid implies #[trigger] stage_served(
            first,
            replies,
            from,
            store,
            place,
        ) by {
            assert(stage_run(stage, replies, from, place).outcome is Wait);
        }
        same_asks(stage, first, replies, from, from, store, store, mid);
        assert forall|place: int| mid <= place <= count implies #[trigger] stage_run(
            stage,
            replies,
            from,
            place,
        ) == stage_run(other, replies, mid, place) by {
            let cut = stage_run(first, replies, from, place);
            assert(cut.outcome == full.outcome);
            assert(stage(Trace { replies: replies.take(place), at: from }) == rest(
                value,
                cut.trace,
            ));
        }
        assert(stage(start) == rest(value, full.trace));
        assert(full.trace == (Trace { replies, at: mid }));
        assert forall|place: int|
            mid <= place < replies.len() && stage_run(other, replies, mid, place).outcome
                is Wait implies #[trigger] stage_served(other, replies, mid, between, place) && fits(
        stage_run(other, replies, mid, place).outcome->Wait_0,
        replies[place],
    ) by {
            assert(stage_run(stage, replies, from, place) == stage_run(other, replies, mid, place));
            assert(stage_served(stage, replies, from, store, place));
            same_runs(stage, other, replies, from, mid, store, between, place);
        }
        assert forall|place: int| mid <= place <= replies.len() implies #[trigger] stage_store(
            stage,
            replies,
            from,
            store,
            place,
        ) == stage_store(other, replies, mid, between, place) by {
            same_runs(stage, other, replies, from, mid, store, between, place);
        }
    }
}

/// A stage that has ended writes nothing more.
pub proof fn nothing_more<T, E>(
    stage: Workflow<T, E>,
    replies: Seq<Reply>,
    from: int,
    store: Store,
    place: int,
)
    requires
        forall|trace: Trace| !((#[trigger] stage(trace)).outcome is Wait),
    ensures
        stage_store(stage, replies, from, store, place) == store,
    decreases place - from,
{
    if place > from {
        nothing_more(stage, replies, from, store, place - 1);
    }
}

/// The store after a workflow's last reply is the one that its stages leave.
pub proof fn whole_leaves<T, E>(workflow: Workflow<T, E>, replies: Seq<Reply>, store: Store)
    ensures
        model::store_after(workflow, replies, store) == stage_store(
            workflow,
            replies,
            0,
            store,
            replies.len() as int,
        ),
{
    stores_agree(workflow, replies, store, replies.len() as int);
}

/// Stages that do the same are underway alike.
pub proof fn same_underway<T, E>(
    stage: Workflow<T, E>,
    other: Workflow<T, E>,
    replies: Seq<Reply>,
    from: int,
    store: Store,
    fits: spec_fn(Ask, Reply) -> bool,
)
    requires
        underway(stage, replies, from, store, fits),
        forall|trace: Trace| #[trigger] stage(trace) == other(trace),
    ensures
        underway(other, replies, from, store, fits),
{
    assert(stage =~= other);
}

/// A transaction is underway as its body, and ends in the result in which its body ends.
pub proof fn goes_through_transaction<T, E>(
    body: Workflow<T, E>,
    replies: Seq<Reply>,
    from: int,
    store: Store,
    fits: spec_fn(Ask, Reply) -> bool,
)
    requires
        underway(|trace: Trace| script::transaction(trace, body), replies, from, store, fits),
        in_order(body, replies, from + 1),
    ensures
        underway(body, replies, from + 1, model::executed(store, Op::begin()).0, fits),
        body(Trace { replies, at: from + 1 }).outcome matches Outcome::Done(value)
            ==> script::transaction(Trace { replies, at: from }, body).outcome == Outcome::<
            T,
            E,
        >::Done(value),
{
    let stage: Workflow<T, E> = |trace: Trace| script::transaction(trace, body);
    let begun = model::executed(store, Op::begin()).0;
    let tail = |rows: Seq<Row>, trace: Trace| script::settled(body(trace));
    let rows = asks_store(stage, Op::begin(), tail, replies, from, store, fits);
    let second: Workflow<T, E> = |trace: Trace| tail(rows, trace);
    let rest = |result: T, trace: Trace|
        script::perform::<T, E>(trace, Op::commit(), |trace: Trace| script::done(trace, result));
    goes_through(second, body, rest, replies, from + 1, begun, fits);
    if let Outcome::Done(value) = body(Trace { replies, at: from + 1 }).outcome {
        let mid = body(Trace { replies, at: from + 1 }).trace.at;
        let between = stage_store(body, replies, from + 1, begun, mid);
        let last: Workflow<T, E> = |trace: Trace| rest(value, trace);
        let end = |rows: Seq<Row>, trace: Trace| script::done::<T, E>(trace, value);
        let ended_rows = asks_store(last, Op::commit(), end, replies, mid, between, fits);
    }
}

} // verus!
