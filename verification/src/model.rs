//! A store as mathematics: what each statement does and what a workflow's replies are when such a
//! store gives them. Laws about several workflows are stated over it.
use crate::script::{Ask, Outcome, Reply, Run, Trace};
use crate::store::{Datum, Direction, Op, Relation, Row, Value, Verb};
use vstd::prelude::*;

verus! {

/// One stored row: its columns by name. A column that is not there holds null.
pub type Record = Map<Seq<char>, Datum>;

/// The rows of every table.
pub type Tables = Map<Seq<char>, Seq<Record>>;

/// A store, and what it returns to when the open transaction is rolled back.
#[verifier::ext_equal]
pub struct Store {
    pub tables: Tables,
    pub saved: Option<Tables>,
}

pub open spec fn datum_in(record: Record, column: Seq<char>) -> Datum {
    if record.contains_key(column) {
        record[column]
    } else {
        Datum::Null
    }
}

impl Store {
    /// The rows of a table.
    pub open spec fn rows(self, table: Seq<char>) -> Seq<Record> {
        if self.tables.contains_key(table) {
            self.tables[table]
        } else {
            Seq::empty()
        }
    }

    pub open spec fn with_rows(self, table: Seq<char>, rows: Seq<Record>) -> Store {
        Store { tables: self.tables.insert(table, rows), ..self }
    }
}

/// Whether a row meets one filter. Null meets none.
pub open spec fn meets(record: Record, filter: (Seq<char>, Relation, Datum)) -> bool {
    match (filter.1, datum_in(record, filter.0), filter.2) {
        (_, Datum::Null, _) => false,
        (Relation::Equal, held, wanted) => held == wanted,
        (Relation::Greater, Datum::Integer(held), Datum::Integer(bound)) => held > bound,
        _ => false,
    }
}

/// Whether a row meets every filter.
pub open spec fn meets_all(record: Record, filters: Seq<(Seq<char>, Relation, Datum)>) -> bool {
    forall|i: int| 0 <= i < filters.len() ==> meets(record, #[trigger] filters[i])
}

/// The rows that meet every filter, in their order.
pub open spec fn found(
    rows: Seq<Record>,
    filters: Seq<(Seq<char>, Relation, Datum)>,
) -> Seq<Record>
    decreases rows.len(),
{
    if rows.len() == 0 {
        Seq::empty()
    } else if meets_all(rows.last(), filters) {
        found(rows.drop_last(), filters).push(rows.last())
    } else {
        found(rows.drop_last(), filters)
    }
}

/// The rows that do not meet every filter, in their order.
pub open spec fn left(
    rows: Seq<Record>,
    filters: Seq<(Seq<char>, Relation, Datum)>,
) -> Seq<Record>
    decreases rows.len(),
{
    if rows.len() == 0 {
        Seq::empty()
    } else if meets_all(rows.last(), filters) {
        left(rows.drop_last(), filters)
    } else {
        left(rows.drop_last(), filters).push(rows.last())
    }
}

/// A row with some columns set.
pub open spec fn assigned(record: Record, values: Seq<(Seq<char>, Datum)>) -> Record
    decreases values.len(),
{
    if values.len() == 0 {
        record
    } else {
        assigned(record, values.drop_last()).insert(values.last().0, values.last().1)
    }
}

/// The rows with some columns set in those that meet every filter.
pub open spec fn updated(
    rows: Seq<Record>,
    filters: Seq<(Seq<char>, Relation, Datum)>,
    values: Seq<(Seq<char>, Datum)>,
) -> Seq<Record> {
    Seq::new(
        rows.len(),
        |i: int|
            if meets_all(rows[i], filters) {
                assigned(rows[i], values)
            } else {
                rows[i]
            },
    )
}

/// Some rows with some columns set in each.
pub open spec fn all_assigned(rows: Seq<Record>, values: Seq<(Seq<char>, Datum)>) -> Seq<Record> {
    Seq::new(rows.len(), |i: int| assigned(rows[i], values))
}

/// Whether a row comes before another in a sorted reply.
pub open spec fn sorts_before(
    left: Record,
    right: Record,
    column: Seq<char>,
    direction: Direction,
) -> bool {
    match (datum_in(left, column), datum_in(right, column)) {
        (Datum::Integer(first), Datum::Integer(second)) => match direction {
            Direction::Ascending => first < second,
            Direction::Descending => first > second,
        },
        _ => false,
    }
}

/// The rows of a reply in the order that was asked for.
pub open spec fn sorted(rows: Seq<Record>, order: Option<(Seq<char>, Direction)>) -> Seq<Record> {
    match order {
        None => rows,
        Some((column, direction)) => crate::order::arranged(
            rows,
            |left: Record, right: Record| sorts_before(left, right, column, direction),
        ),
    }
}

/// At most `limit` rows.
pub open spec fn limited(rows: Seq<Record>, limit: Option<int>) -> Seq<Record> {
    match limit {
        Some(limit) => if 0 <= limit < rows.len() {
            rows.take(limit)
        } else {
            rows
        },
        None => rows,
    }
}

/// What a statement leaves behind and what it replies.
pub open spec fn executed(store: Store, op: Op) -> (Store, Seq<Record>) {
    let rows = store.rows(op.table);
    let hits = found(rows, op.filters);
    match op.verb {
        Verb::Begin => (Store { saved: Some(store.tables), ..store }, Seq::empty()),
        Verb::Commit => (Store { saved: None, ..store }, Seq::empty()),
        Verb::Rollback => (
            match store.saved {
                Some(tables) => Store { tables, saved: None },
                None => store,
            },
            Seq::empty(),
        ),
        Verb::Select => (store, limited(sorted(hits, op.order), op.limit)),
        Verb::Insert => {
            let record = assigned(Map::empty(), op.values);
            (store.with_rows(op.table, rows.push(record)), seq![record])
        },
        Verb::Update => (
            store.with_rows(op.table, updated(rows, op.filters, op.values)),
            all_assigned(hits, op.values),
        ),
        Verb::Upsert => if hits.len() == 0 {
            let record = assigned(Map::empty(), op.values);
            (store.with_rows(op.table, rows.push(record)), seq![record])
        } else {
            (
                store.with_rows(op.table, updated(rows, op.filters, op.values)),
                all_assigned(hits, op.values),
            )
        },
        Verb::Delete => (store.with_rows(op.table, left(rows, op.filters)), hits),
    }
}

/// Whether a reply's row shows a stored row. A store replies with signed numbers.
pub open spec fn shows(row: Row, record: Record) -> bool {
    forall|column: Seq<char>|
        match #[trigger] row.column(column) {
            Some(Value::Unsigned(_)) => false,
            Some(value) => value@ == datum_in(record, column),
            None => datum_in(record, column) == Datum::Null,
        }
}

/// Whether a reply's rows show stored rows, in their order.
pub open spec fn all_shown(rows: Seq<Row>, records: Seq<Record>) -> bool {
    &&& rows.len() == records.len()
    &&& forall|i: int| 0 <= i < rows.len() ==> shows(#[trigger] rows[i], records[i])
}

/// A workflow as a function of its script.
pub type Workflow<T, E> = spec_fn(Trace) -> Run<T, E>;

/// What a workflow asks when it has received the first `place` replies.
pub open spec fn asked<T, E>(workflow: Workflow<T, E>, replies: Seq<Reply>, place: int) -> Option<
    Ask,
> {
    match workflow(Trace { replies: replies.take(place), at: 0 }).outcome {
        Outcome::Wait(ask) => Some(ask),
        _ => None,
    }
}

/// The store after a workflow has received the first `place` replies.
pub open spec fn store_at<T, E>(
    workflow: Workflow<T, E>,
    replies: Seq<Reply>,
    store: Store,
    place: int,
) -> Store
    decreases place,
{
    if place <= 0 {
        store
    } else {
        let before = store_at(workflow, replies, store, place - 1);
        match asked(workflow, replies, place - 1) {
            Some(Ask::Store(op)) => executed(before, op).0,
            _ => before,
        }
    }
}

/// Whether every reply to a statement is the store's, and no reply comes unasked.
pub open spec fn served<T, E>(
    workflow: Workflow<T, E>,
    replies: Seq<Reply>,
    store: Store,
) -> bool {
    forall|place: int| 0 <= place < replies.len() ==> #[trigger] served_at(
        workflow,
        replies,
        store,
        place,
    )
}

pub open spec fn served_at<T, E>(
    workflow: Workflow<T, E>,
    replies: Seq<Reply>,
    store: Store,
    place: int,
) -> bool {
    match asked(workflow, replies, place) {
        Some(Ask::Store(op)) => replies[place] matches Reply::Rows(rows) && all_shown(
            rows@,
            executed(store_at(workflow, replies, store, place), op).1,
        ),
        Some(_) => true,
        None => false,
    }
}

/// How a workflow ended on its replies.
pub open spec fn ending<T, E>(workflow: Workflow<T, E>, replies: Seq<Reply>) -> Outcome<T, E> {
    workflow(Trace { replies, at: 0 }).outcome
}

/// The store when a workflow has received all its replies.
pub open spec fn store_after<T, E>(
    workflow: Workflow<T, E>,
    replies: Seq<Reply>,
    store: Store,
) -> Store {
    store_at(workflow, replies, store, replies.len() as int)
}

/// What a shown row holds is what the stored row holds.
pub proof fn shown_values(row: Row, record: Record, column: Seq<char>)
    requires
        shows(row, record),
    ensures
        row.text_at(column) == (match datum_in(record, column) {
            Datum::Text(text) => Some(text),
            _ => None,
        }),
        match datum_in(record, column) {
            Datum::Integer(number) => row.integer_at(column) matches Some(held) && held == number,
            _ => row.integer_at(column) is None,
        },
{
    assert(match row.column(column) {
        Some(Value::Unsigned(_)) => false,
        Some(value) => value@ == datum_in(record, column),
        None => datum_in(record, column) == Datum::Null,
    });
}

/// Found rows are rows of the table that meet every filter, and there are none exactly where no
/// row does.
pub proof fn found_rows(rows: Seq<Record>, filters: Seq<(Seq<char>, Relation, Datum)>)
    ensures
        forall|i: int|
            0 <= i < found(rows, filters).len() ==> meets_all(
                #[trigger] found(rows, filters)[i],
                filters,
            ) && rows.contains(found(rows, filters)[i]),
        (exists|i: int| 0 <= i < rows.len() && meets_all(#[trigger] rows[i], filters))
            <==> found(rows, filters).len() > 0,
    decreases rows.len(),
{
    if rows.len() > 0 {
        let less = rows.drop_last();
        found_rows(less, filters);
        let hits = found(less, filters);
        assert forall|i: int| 0 <= i < found(rows, filters).len() implies meets_all(
            #[trigger] found(rows, filters)[i],
            filters,
        ) && rows.contains(found(rows, filters)[i]) by {
            if i < hits.len() {
                let at = choose|at: int| 0 <= at < less.len() && less[at] == hits[i];
                assert(rows[at] == hits[i]);
            } else {
                assert(rows[rows.len() - 1] == rows.last());
            }
        }
        if exists|i: int| 0 <= i < rows.len() && meets_all(#[trigger] rows[i], filters) {
            let i = choose|i: int| 0 <= i < rows.len() && meets_all(#[trigger] rows[i], filters);
            if i < less.len() {
                assert(meets_all(less[i], filters));
            }
        }
        if found(rows, filters).len() > 0 {
            if meets_all(rows.last(), filters) {
                assert(meets_all(rows[rows.len() - 1], filters));
            } else {
                let i = choose|i: int|
                    0 <= i < less.len() && meets_all(#[trigger] less[i], filters);
                assert(meets_all(rows[i], filters));
            }
        }
    }
}

/// What is left are rows of the table that do not meet every filter.
pub proof fn left_rows(rows: Seq<Record>, filters: Seq<(Seq<char>, Relation, Datum)>)
    ensures
        forall|i: int|
            0 <= i < left(rows, filters).len() ==> !meets_all(
                #[trigger] left(rows, filters)[i],
                filters,
            ) && rows.contains(left(rows, filters)[i]),
    decreases rows.len(),
{
    if rows.len() > 0 {
        let less = rows.drop_last();
        left_rows(less, filters);
        let kept = left(less, filters);
        assert forall|i: int| 0 <= i < left(rows, filters).len() implies !meets_all(
            #[trigger] left(rows, filters)[i],
            filters,
        ) && rows.contains(left(rows, filters)[i]) by {
            if i < kept.len() {
                let at = choose|at: int| 0 <= at < less.len() && less[at] == kept[i];
                assert(rows[at] == kept[i]);
            } else {
                assert(rows[rows.len() - 1] == rows.last());
            }
        }
    }
}

/// A column that is not set keeps its value.
pub proof fn assigned_keeps(record: Record, values: Seq<(Seq<char>, Datum)>, column: Seq<char>)
    requires
        forall|i: int| 0 <= i < values.len() ==> (#[trigger] values[i]).0 != column,
    ensures
        datum_in(assigned(record, values), column) == datum_in(record, column),
    decreases values.len(),
{
    if values.len() > 0 {
        let less = values.drop_last();
        assert forall|i: int| 0 <= i < less.len() implies (#[trigger] less[i]).0 != column by {
            assert(less[i] == values[i]);
        }
        assigned_keeps(record, less, column);
        assert(values[values.len() - 1].0 != column);
    }
}

/// A column holds what it was last set to.
pub proof fn assigned_sets(record: Record, values: Seq<(Seq<char>, Datum)>, place: int)
    requires
        0 <= place < values.len(),
        forall|i: int|
            place < i < values.len() ==> (#[trigger] values[i]).0 != values[place].0,
    ensures
        datum_in(assigned(record, values), values[place].0) == values[place].1,
    decreases values.len(),
{
    if place < values.len() - 1 {
        let less = values.drop_last();
        assert forall|i: int| place < i < less.len() implies (#[trigger] less[i]).0
            != less[place].0 by {
            assert(less[i] == values[i]);
        }
        assigned_sets(record, less, place);
        assert(values[values.len() - 1].0 != values[place].0);
    }
}

/// A row that is inserted under distinct columns holds each of its values.
pub proof fn inserted_values_hold(values: Seq<(Seq<char>, Datum)>)
    requires
        forall|i: int, j: int|
            0 <= i < j < values.len() ==> (#[trigger] values[i]).0 != (#[trigger] values[j]).0,
    ensures
        forall|i: int|
            0 <= i < values.len() ==> datum_in(
                assigned(Map::empty(), values),
                (#[trigger] values[i]).0,
            ) == values[i].1,
{
    assert forall|i: int| 0 <= i < values.len() implies datum_in(
        assigned(Map::empty(), values),
        (#[trigger] values[i]).0,
    ) == values[i].1 by {
        assigned_sets(Map::empty(), values, i);
    }
}

/// After an upsert by one key, rows with that key exist, and each holds what was set.
pub proof fn upserted_rows_hold(store: Store, op: Op, key: int, place: int)
    requires
        op.verb == Verb::Upsert,
        op.filters.len() == 1,
        op.filters[0].1 == Relation::Equal,
        !(op.filters[0].2 is Null),
        0 <= key < op.values.len(),
        op.values[key] == (op.filters[0].0, op.filters[0].2),
        forall|i: int| key < i < op.values.len() ==> (#[trigger] op.values[i]).0 != op.values[key].0,
        0 <= place < op.values.len(),
        forall|i: int|
            place < i < op.values.len() ==> (#[trigger] op.values[i]).0 != op.values[place].0,
    ensures
        found(executed(store, op).0.rows(op.table), op.filters).len() > 0,
        forall|i: int|
            0 <= i < found(executed(store, op).0.rows(op.table), op.filters).len() ==> datum_in(
                #[trigger] found(executed(store, op).0.rows(op.table), op.filters)[i],
                op.values[place].0,
            ) == op.values[place].1,
{
    let rows = store.rows(op.table);
    let after = executed(store, op).0.rows(op.table);
    found_rows(rows, op.filters);
    found_rows(after, op.filters);
    let fresh = assigned(Map::empty(), op.values);
    assigned_sets(Map::empty(), op.values, key);
    assigned_sets(Map::empty(), op.values, place);
    assert(meets_all(fresh, op.filters)) by {
        assert(meets(fresh, op.filters[0]));
    }
    if found(rows, op.filters).len() == 0 {
        assert(after == rows.push(fresh));
        assert(meets_all(after[rows.len() as int], op.filters));
        assert forall|i: int| 0 <= i < found(after, op.filters).len() implies datum_in(
            #[trigger] found(after, op.filters)[i],
            op.values[place].0,
        ) == op.values[place].1 by {
            let hit = found(after, op.filters)[i];
            let at = choose|at: int| 0 <= at < after.len() && after[at] == hit;
            if at < rows.len() {
                assert(meets_all(rows[at], op.filters));
            }
        }
    } else {
        assert(after == updated(rows, op.filters, op.values));
        let w = choose|w: int| 0 <= w < rows.len() && meets_all(#[trigger] rows[w], op.filters);
        assigned_sets(rows[w], op.values, key);
        assert(meets_all(after[w], op.filters)) by {
            assert(meets(after[w], op.filters[0]));
        }
        assert forall|i: int| 0 <= i < found(after, op.filters).len() implies datum_in(
            #[trigger] found(after, op.filters)[i],
            op.values[place].0,
        ) == op.values[place].1 by {
            let hit = found(after, op.filters)[i];
            let at = choose|at: int| 0 <= at < after.len() && after[at] == hit;
            if meets_all(rows[at], op.filters) {
                assigned_sets(rows[at], op.values, place);
            }
        }
    }
}

/// Finding in two lists one after the other finds what is in the first and then what is in the
/// second.
pub proof fn found_in_both(
    first: Seq<Record>,
    second: Seq<Record>,
    filters: Seq<(Seq<char>, Relation, Datum)>,
)
    ensures
        found(first + second, filters) == found(first, filters) + found(second, filters),
    decreases second.len(),
{
    if second.len() == 0 {
        assert(first + second =~= first);
        assert(found(first, filters) + found(second, filters) =~= found(first, filters));
    } else {
        found_in_both(first, second.drop_last(), filters);
        assert((first + second).drop_last() =~= first + second.drop_last());
        assert((first + second).last() == second.last());
        let hits = found(second.drop_last(), filters);
        assert(found(first, filters) + hits.push(second.last()) =~= (found(first, filters)
            + hits).push(second.last()));
    }
}

/// Where every row meets the filters, every row is found.
pub proof fn all_found(rows: Seq<Record>, filters: Seq<(Seq<char>, Relation, Datum)>)
    requires
        forall|i: int| 0 <= i < rows.len() ==> meets_all(#[trigger] rows[i], filters),
    ensures
        found(rows, filters) == rows,
    decreases rows.len(),
{
    if rows.len() == 0 {
        assert(rows =~= Seq::empty());
    } else {
        let less = rows.drop_last();
        assert forall|i: int| 0 <= i < less.len() implies meets_all(
            #[trigger] less[i],
            filters,
        ) by {
            assert(less[i] == rows[i]);
        }
        all_found(less, filters);
        assert(meets_all(rows[rows.len() - 1], filters));
        assert(less.push(rows.last()) =~= rows);
    }
}

} // verus!
