//! Private rack-order preferences, which no game rule depends on.
use crate::game::{GameId, GameState, PlayerId, Tile};
use crate::game_service::{self, player_for_user, GameServiceError};
use crate::ids::{self, id_text};
use crate::journal::{self, recover_game, JournalError};
use crate::script::{self, Run, Script, Stop, Trace};
use crate::store::{self, first_text, Op, Row, Statement};
use crate::text::{self, colon_joined};
use std::collections::BTreeSet;
use vstd::prelude::*;

verus! {

/// Rack-preference failure.
#[derive(Debug, Clone, PartialEq, Eq)]
pub enum RackPreferenceError {
    /// The stored preference is not a list of tiles.
    Serialization(String),
    /// The member has no rack in the game.
    NotSeated,
    Game(GameServiceError),
    Journal(JournalError),
}

impl RackPreferenceError {
    /// The error in words; an outside error is told in its own.
    pub open spec fn message_of(self) -> Seq<char> {
        match self {
            RackPreferenceError::Serialization(reason) => reason@,
            RackPreferenceError::NotSeated => "the player has no rack in this game"@,
            RackPreferenceError::Game(error) => error.message_of(),
            RackPreferenceError::Journal(error) => error.message_of(),
        }
    }

    pub fn message(self) -> (message: String)
        ensures
            message@ == self.message_of(),
    {
        match self {
            RackPreferenceError::Serialization(reason) => reason,
            RackPreferenceError::NotSeated => "the player has no rack in this game".to_owned(),
            RackPreferenceError::Game(error) => error.message(),
            RackPreferenceError::Journal(error) => error.message(),
        }
    }
}

/// The elements of `items` that are allowed and not yet seen, each at its first place.
pub open spec fn picked(items: Seq<u16>, allowed: Set<u16>, seen: Set<u16>) -> Seq<u16>
    decreases items.len(),
{
    if items.len() == 0 {
        Seq::empty()
    } else {
        let before = picked(items.drop_last(), allowed, seen);
        let item = items.last();
        if allowed.contains(item) && !seen.contains(item) && !before.contains(item) {
            before.push(item)
        } else {
            before
        }
    }
}

/// The preferred order without stale tiles and repetitions, and behind it the other tiles of the
/// rack in rack order.
pub open spec fn reconciled(preferred: Seq<u16>, authoritative: Seq<u16>) -> Seq<u16> {
    let kept = picked(preferred, authoritative.to_set(), Set::empty());
    kept + picked(authoritative, Set::full(), kept.to_set())
}

fn pick(items: &[u16], allowed: Option<&BTreeSet<u16>>, seen: &mut BTreeSet<u16>, into: &mut Vec<
    u16,
>)
    ensures
        final(into)@ == old(into)@ + picked(
            items@,
            match allowed {
                Some(allowed) => allowed@,
                None => Set::full(),
            },
            old(seen)@,
        ),
        final(seen)@ == old(seen)@ + picked(
            items@,
            match allowed {
                Some(allowed) => allowed@,
                None => Set::full(),
            },
            old(seen)@,
        ).to_set(),
{
    broadcast use vstd::std_specs::btree::group_btree_axioms;

    let ghost members = match allowed {
        Some(allowed) => allowed@,
        None => Set::full(),
    };
    let mut at: usize = 0;
    assert(items@.take(0) =~= Seq::empty());
    assert(into@ =~= old(into)@ + picked(items@.take(0), members, old(seen)@));
    assert(seen@ =~= old(seen)@ + picked(items@.take(0), members, old(seen)@).to_set());
    while at < items.len()
        invariant
            at <= items@.len(),
            members == (match allowed {
                Some(allowed) => allowed@,
                None => Set::full(),
            }),
            into@ == old(into)@ + picked(items@.take(at as int), members, old(seen)@),
            seen@ == old(seen)@ + picked(items@.take(at as int), members, old(seen)@).to_set(),
        decreases items@.len() - at,
    {
        let item: u16 = items[at];
        let ghost before = picked(items@.take(at as int), members, old(seen)@);
        let ghost more = items@.take(at + 1);
        assert(more.drop_last() =~= items@.take(at as int));
        assert(more.last() == item);
        assert(before.to_set().contains(item) <==> before.contains(item));
        let allowed_item: bool = match allowed {
            Some(allowed) => allowed.contains(&item),
            None => true,
        };
        if allowed_item && !seen.contains(&item) {
            into.push(item);
            seen.insert(item);
            assert(picked(more, members, old(seen)@) == before.push(item));
            assert(into@ =~= old(into)@ + before.push(item));
            assert forall|x: u16| before.push(item).to_set().contains(x) <==> (before.to_set()
                + set![item]).contains(x) by {
                if before.contains(x) {
                    let i = choose|i: int| 0 <= i < before.len() && before[i] == x;
                    assert(before.push(item)[i] == x);
                }
                if x == item {
                    assert(before.push(item)[before.len() as int] == x);
                }
                if before.push(item).contains(x) && x != item {
                    let i = choose|i: int|
                        0 <= i < before.push(item).len() && before.push(item)[i] == x;
                    assert(before[i] == x);
                }
            }
            assert(before.push(item).to_set() =~= before.to_set() + set![item]);
            assert(seen@ =~= old(seen)@ + before.push(item).to_set());
        } else {
            assert(picked(more, members, old(seen)@) == before);
        }
        at = at + 1;
    }
    assert(items@.take(at as int) =~= items@);
}

/// Reconciles a preferred order with the authoritative rack.
pub fn reconcile_rack_order(preferred: &[u16], authoritative: &[u16]) -> (order: Vec<u16>)
    ensures
        order@ == reconciled(preferred@, authoritative@),
{
    broadcast use vstd::std_specs::btree::group_btree_axioms;

    let mut members: BTreeSet<u16> = BTreeSet::new();
    let mut at: usize = 0;
    assert(authoritative@.take(0).to_set() =~= Set::empty());
    while at < authoritative.len()
        invariant
            at <= authoritative@.len(),
            members@ == authoritative@.take(at as int).to_set(),
        decreases authoritative@.len() - at,
    {
        let item: u16 = authoritative[at];
        members.insert(item);
        let ghost less = authoritative@.take(at as int);
        let ghost more = authoritative@.take(at + 1);
        assert forall|x: u16| more.to_set().contains(x) <==> less.to_set().insert(item).contains(
            x,
        ) by {
            if less.contains(x) {
                let i = choose|i: int| 0 <= i < less.len() && less[i] == x;
                assert(more[i] == x);
            }
            if x == item {
                assert(more[at as int] == x);
            }
            if more.contains(x) && x != item {
                let i = choose|i: int| 0 <= i < more.len() && more[i] == x;
                assert(less[i] == x);
            }
        }
        assert(more.to_set() =~= less.to_set().insert(item));
        at = at + 1;
    }
    assert(authoritative@.take(at as int) =~= authoritative@);
    let mut seen: BTreeSet<u16> = BTreeSet::new();
    let mut order: Vec<u16> = Vec::new();
    pick(preferred, Some(&members), &mut seen, &mut order);
    let ghost kept = picked(preferred@, authoritative@.to_set(), Set::empty());
    assert(order@ =~= kept);
    assert(seen@ =~= kept.to_set());
    pick(authoritative, None, &mut seen, &mut order);
    order
}

proof fn picked_properties(items: Seq<u16>, allowed: Set<u16>, seen: Set<u16>)
    ensures
        picked(items, allowed, seen).no_duplicates(),
        forall|x: u16| #[trigger]
            picked(items, allowed, seen).contains(x) <==> items.contains(x) && allowed.contains(x)
                && !seen.contains(x),
    decreases items.len(),
{
    if items.len() > 0 {
        let less = items.drop_last();
        let item = items.last();
        let before = picked(less, allowed, seen);
        picked_properties(less, allowed, seen);
        assert forall|x: u16| #[trigger]
            picked(items, allowed, seen).contains(x) <==> items.contains(x) && allowed.contains(x)
                && !seen.contains(x) by {
            if less.contains(x) {
                let i = choose|i: int| 0 <= i < less.len() && less[i] == x;
                assert(items[i] == x);
            }
            if items.contains(x) && x != item {
                let i = choose|i: int| 0 <= i < items.len() && items[i] == x;
                assert(less[i] == x);
            }
            if x == item {
                assert(items[items.len() - 1] == x);
            }
            if picked(items, allowed, seen) == before.push(item) {
                if before.contains(x) {
                    let i = choose|i: int| 0 <= i < before.len() && before[i] == x;
                    assert(before.push(item)[i] == x);
                }
                if x == item {
                    assert(before.push(item)[before.len() as int] == x);
                }
                if before.push(item).contains(x) && x != item {
                    let i = choose|i: int|
                        0 <= i < before.push(item).len() && before.push(item)[i] == x;
                    assert(before[i] == x);
                }
            }
        }
    }
}

/// A reconciled order holds exactly the tiles of the rack, each once.
pub proof fn reconciled_order_is_the_rack(preferred: Seq<u16>, authoritative: Seq<u16>)
    ensures
        reconciled(preferred, authoritative).no_duplicates(),
        reconciled(preferred, authoritative).to_set() == authoritative.to_set(),
{
    let kept = picked(preferred, authoritative.to_set(), Set::empty());
    let added = picked(authoritative, Set::full(), kept.to_set());
    let order = reconciled(preferred, authoritative);
    picked_properties(preferred, authoritative.to_set(), Set::empty());
    picked_properties(authoritative, Set::full(), kept.to_set());
    assert forall|x: u16| order.contains(x) <==> kept.contains(x) || added.contains(x) by {
        if kept.contains(x) {
            let i = choose|i: int| 0 <= i < kept.len() && kept[i] == x;
            assert(order[i] == x);
        }
        if added.contains(x) {
            let i = choose|i: int| 0 <= i < added.len() && added[i] == x;
            assert(order[kept.len() + i] == x);
        }
    }
    assert forall|x: u16| order.to_set().contains(x) <==> authoritative.to_set().contains(x) by {
        assert(kept.to_set().contains(x) <==> kept.contains(x));
    }
    assert(order.to_set() =~= authoritative.to_set());
    assert forall|i: int, j: int| 0 <= i < order.len() && 0 <= j < order.len() && i != j implies order[
    i] != order[j] by {
        if i < kept.len() && j >= kept.len() {
            assert(kept.contains(kept[i]));
            assert(added.contains(added[j - kept.len()]));
        }
        if j < kept.len() && i >= kept.len() {
            assert(kept.contains(kept[j]));
            assert(added.contains(added[i - kept.len()]));
        }
    }
}

proof fn picked_keeps(items: Seq<u16>, allowed: Set<u16>)
    requires
        items.no_duplicates(),
        items.to_set().subset_of(allowed),
    ensures
        picked(items, allowed, Set::empty()) == items,
    decreases items.len(),
{
    if items.len() > 0 {
        let less = items.drop_last();
        assert forall|x: u16| less.to_set().contains(x) implies allowed.contains(x) by {
            assert(less.contains(x));
            let i = choose|i: int| 0 <= i < less.len() && less[i] == x;
            assert(items[i] == x);
            assert(items.to_set().contains(x));
        }
        picked_keeps(less, allowed);
        assert(!less.contains(items.last()));
        assert(items.to_set().contains(items.last()));
        assert(less.push(items.last()) =~= items);
    }
}

/// Reconciling a reconciled order with the same rack changes nothing.
pub proof fn reconciling_is_idempotent(preferred: Seq<u16>, authoritative: Seq<u16>)
    ensures
        reconciled(reconciled(preferred, authoritative), authoritative) == reconciled(
            preferred,
            authoritative,
        ),
{
    let order = reconciled(preferred, authoritative);
    reconciled_order_is_the_rack(preferred, authoritative);
    picked_keeps(order, authoritative.to_set());
    picked_properties(authoritative, Set::full(), order.to_set());
    let added = picked(authoritative, Set::full(), order.to_set());
    if added.len() > 0 {
        let x = added[0];
        assert(added.contains(x));
        assert(authoritative.to_set().contains(x));
    }
    assert(order + added =~= order);
}

/// The first place of a tile in an order, or the order's length where it is not there.
pub open spec fn tile_place(order: Seq<u16>, tile: u16) -> int
    decreases order.len(),
{
    if order.len() == 0 || order[0] == tile {
        0
    } else {
        1 + tile_place(order.skip(1), tile)
    }
}

/// The order with the first places of two tiles exchanged, or as it was where one is not there.
pub open spec fn swapped(order: Seq<u16>, first: u16, second: u16) -> Seq<u16> {
    let i = tile_place(order, first);
    let j = tile_place(order, second);
    if i < order.len() && j < order.len() {
        order.update(i, order[j]).update(j, order[i])
    } else {
        order
    }
}

proof fn tile_place_unique(order: Seq<u16>, tile: u16, place: int)
    requires
        0 <= place <= order.len(),
        place < order.len() ==> order[place] == tile,
        forall|i: int| 0 <= i < place ==> #[trigger] order[i] != tile,
    ensures
        tile_place(order, tile) == place,
    decreases order.len(),
{
    if place > 0 {
        assert(order[0] != tile);
        let rest = order.skip(1);
        assert forall|i: int| 0 <= i < place - 1 implies #[trigger] rest[i] != tile by {
            assert(rest[i] == order[i + 1]);
        }
        tile_place_unique(rest, tile, place - 1);
    }
}

proof fn tile_place_bounds(order: Seq<u16>, tile: u16)
    ensures
        0 <= tile_place(order, tile) <= order.len(),
        tile_place(order, tile) < order.len() ==> order[tile_place(order, tile)] == tile,
        forall|i: int| 0 <= i < tile_place(order, tile) ==> #[trigger] order[i] != tile,
    decreases order.len(),
{
    if order.len() > 0 && order[0] != tile {
        let rest = order.skip(1);
        tile_place_bounds(rest, tile);
        assert forall|i: int| 0 <= i < tile_place(order, tile) implies #[trigger] order[i]
            != tile by {
            if i > 0 {
                assert(rest[i - 1] == order[i]);
            }
        }
    }
}

fn place_in(order: &[u16], tile: u16) -> (place: usize)
    ensures
        place == tile_place(order@, tile),
        place <= order@.len(),
{
    let mut at: usize = 0;
    while at < order.len() && order[at] != tile
        invariant
            at <= order@.len(),
            forall|i: int| 0 <= i < at ==> #[trigger] order@[i] != tile,
        decreases order@.len() - at,
    {
        at = at + 1;
    }
    proof {
        tile_place_unique(order@, tile, at as int);
    }
    at
}

/// Swaps two rack tiles and keeps every other position.
pub fn swap_rack_tiles(order: &[u16], first: u16, second: u16) -> (changed: Vec<u16>)
    ensures
        changed@ == swapped(order@, first, second),
{
    let mut changed: Vec<u16> = Vec::new();
    let mut at: usize = 0;
    while at < order.len()
        invariant
            at <= order@.len(),
            changed@ == order@.take(at as int),
        decreases order@.len() - at,
    {
        changed.push(order[at]);
        at = at + 1;
        assert(changed@ =~= order@.take(at as int));
    }
    assert(order@.take(at as int) =~= order@);
    let i: usize = place_in(order, first);
    let j: usize = place_in(order, second);
    if i < order.len() && j < order.len() {
        let moved: u16 = order[i];
        changed.set(i, order[j]);
        changed.set(j, moved);
    }
    changed
}

/// Swapping keeps the tiles of an order.
pub proof fn swapping_keeps_tiles(order: Seq<u16>, first: u16, second: u16)
    ensures
        swapped(order, first, second).to_multiset() == order.to_multiset(),
{
    broadcast use vstd::seq_lib::group_to_multiset_ensures;

    let i = tile_place(order, first);
    let j = tile_place(order, second);
    tile_place_bounds(order, first);
    tile_place_bounds(order, second);
    if i < order.len() && j < order.len() {
        let once = order.update(i, order[j]);
        vstd::seq_lib::to_multiset_update(order, i, order[j]);
        vstd::seq_lib::to_multiset_update(once, j, order[i]);
        if i == j {
            assert(swapped(order, first, second) =~= order);
        } else {
            assert(order.to_multiset().count(order[i]) > 0) by {
                assert(order.contains(order[i]));
            }
            assert(swapped(order, first, second).to_multiset() =~= order.to_multiset());
        }
    }
}

/// Swapping the same two tiles again restores an order in which neither tile stands between their
/// first places.
pub proof fn swapping_twice_restores(order: Seq<u16>, first: u16, second: u16)
    requires
        forall|k: int|
            tile_place(order, first) < k < tile_place(order, second) || tile_place(order, second)
                < k < tile_place(order, first) ==> 0 <= k < order.len() ==> #[trigger] order[k]
                != first && order[k] != second,
    ensures
        swapped(swapped(order, first, second), first, second) == order,
{
    let i = tile_place(order, first);
    let j = tile_place(order, second);
    tile_place_bounds(order, first);
    tile_place_bounds(order, second);
    if i < order.len() && j < order.len() {
        let once = swapped(order, first, second);
        assert forall|k: int| 0 <= k < j implies #[trigger] once[k] != first by {
            if k != i && k < i {
                assert(order[k] != first);
            } else if k > i {
                assert(order[k] != first);
            }
        }
        assert forall|k: int| 0 <= k < i implies #[trigger] once[k] != second by {
            if k != j && k < j {
                assert(order[k] != second);
            } else if k > j {
                assert(order[k] != second);
            }
        }
        tile_place_unique(once, first, j);
        tile_place_unique(once, second, i);
        assert(swapped(once, first, second) =~= order);
    }
}

/// The stored text of an order: its numbers in square brackets with commas between them.
pub open spec fn order_text_of(order: Seq<u16>) -> Seq<char> {
    "["@ + text::joined_with(Seq::new(order.len(), |i: int| text::decimal(order[i] as nat)), ","@)
        + "]"@
}

/// `serde_json::to_string` of a list of numbers: the compact array. Writing to a string cannot
/// fail.
#[verifier::external_body]
fn order_text(order: &Vec<u16>) -> (text: Result<String, String>)
    ensures
        text matches Ok(text) && text@ == order_text_of(order@),
{
    serde_json::to_string(order).map_err(|error| error.to_string())
}

/// The order that `serde_json::from_str` reads from a text that is not a compact array, or why it
/// reads none.
pub uninterp spec fn other_order(text: Seq<char>) -> Result<Seq<u16>, String>;

/// `serde_json::from_str` of a list of 16-bit numbers: it reads every compact array as what it
/// lists. What it makes of any other text is a function of the text alone.
#[verifier::external_body]
fn parse_order(text: &str) -> (order: Result<Vec<u16>, String>)
    ensures
        forall|written: Seq<u16>|
            text@ == #[trigger] order_text_of(written) ==> (order matches Ok(order) && order@
                == written),
        (forall|written: Seq<u16>| text@ != #[trigger] order_text_of(written)) ==> (match order {
            Ok(order) => other_order(text@) == Ok::<Seq<u16>, String>(order@),
            Err(reason) => other_order(text@) == Err::<Seq<u16>, String>(reason),
        }),
{
    serde_json::from_str(text).map_err(|error| error.to_string())
}

/// The order that a stored text holds, or why it holds none.
pub open spec fn order_in(text: Seq<char>) -> Result<Seq<u16>, String> {
    if exists|written: Seq<u16>| text == #[trigger] order_text_of(written) {
        Ok(choose|written: Seq<u16>| text == #[trigger] order_text_of(written))
    } else {
        other_order(text)
    }
}

/// Different orders have different texts.
pub proof fn order_text_is_injective(left: Seq<u16>, right: Seq<u16>)
    requires
        order_text_of(left) == order_text_of(right),
    ensures
        left == right,
{
    let l = Seq::new(left.len(), |i: int| text::decimal(left[i] as nat));
    let r = Seq::new(right.len(), |i: int| text::decimal(right[i] as nat));
    reveal_strlit("[");
    reveal_strlit(",");
    reveal_strlit("]");
    assert(","@ =~= seq![',']);
    let whole = order_text_of(left);
    assert(text::joined_with(l, ","@) =~= whole.subrange(1, whole.len() - 1));
    assert(text::joined_with(r, ","@) =~= whole.subrange(1, whole.len() - 1));
    assert forall|i: int| 0 <= i < l.len() implies text::is_word_without(#[trigger] l[i], ',') by {
        text::decimal_digits(left[i] as nat);
    }
    assert forall|i: int| 0 <= i < r.len() implies text::is_word_without(#[trigger] r[i], ',') by {
        text::decimal_digits(right[i] as nat);
    }
    text::joining_is_injective(l, r, ',');
    assert(l.len() == r.len());
    assert forall|i: int| 0 <= i < left.len() implies left[i] == right[i] by {
        assert(l[i] == r[i]);
        text::decimal_digits(left[i] as nat);
        text::decimal_digits(right[i] as nat);
    }
    assert(left =~= right);
}

/// The text of an order holds that order.
pub proof fn written_orders_are_read(order: Seq<u16>)
    ensures
        order_in(order_text_of(order)) == Ok::<Seq<u16>, String>(order),
{
    let read = choose|written: Seq<u16>| order_text_of(order) == #[trigger] order_text_of(written);
    order_text_is_injective(order, read);
}

fn read_order(text: &str) -> (order: Result<Vec<u16>, String>)
    ensures
        match order {
            Ok(order) => order_in(text@) == Ok::<Seq<u16>, String>(order@),
            Err(reason) => order_in(text@) == Err::<Seq<u16>, String>(reason),
        },
{
    parse_order(text)
}

fn service_stop<'a>(stop: Stop<'a, GameServiceError>) -> (wrapped: Stop<'a, RackPreferenceError>)
    ensures
        wrapped == (match stop {
            Stop::Wait(request) => Stop::Wait(request),
            Stop::Failed(number) => Stop::Failed(number),
            Stop::Mismatch(number) => Stop::Mismatch(number),
            Stop::Fail(error) => Stop::Fail(RackPreferenceError::Game(error)),
        }),
{
    match stop {
        Stop::Wait(request) => Stop::Wait(request),
        Stop::Failed(number) => Stop::Failed(number),
        Stop::Mismatch(number) => Stop::Mismatch(number),
        Stop::Fail(error) => Stop::Fail(RackPreferenceError::Game(error)),
    }
}

fn journal_stop<'a>(stop: Stop<'a, JournalError>) -> (wrapped: Stop<'a, RackPreferenceError>)
    ensures
        wrapped == (match stop {
            Stop::Wait(request) => Stop::Wait(request),
            Stop::Failed(number) => Stop::Failed(number),
            Stop::Mismatch(number) => Stop::Mismatch(number),
            Stop::Fail(error) => Stop::Fail(RackPreferenceError::Journal(error)),
        }),
{
    match stop {
        Stop::Wait(request) => Stop::Wait(request),
        Stop::Failed(number) => Stop::Failed(number),
        Stop::Mismatch(number) => Stop::Mismatch(number),
        Stop::Fail(error) => Stop::Fail(RackPreferenceError::Journal(error)),
    }
}

/// The tile numbers of a rack.
pub open spec fn tile_ids(rack: Seq<Tile>) -> Seq<u16> {
    Seq::new(rack.len(), |i: int| rack[i].id)
}

/// The authoritative rack of an authorized member.
pub open spec fn rack_run(trace: Trace, game_id: GameId, user_id: Seq<char>) -> Run<
    Seq<u16>,
    RackPreferenceError,
> {
    script::chain(
        script::lift(
            game_service::player_for_user_run(trace, game_id, user_id),
            |error: GameServiceError| RackPreferenceError::Game(error),
        ),
        |player: PlayerId, trace: Trace|
            script::chain(
                script::lift(
                    journal::recover_game_run(trace, game_id),
                    |error: JournalError| RackPreferenceError::Journal(error),
                ),
                |state: GameState, trace: Trace|
                    if state.racks@.contains_key(player) {
                        script::done(trace, tile_ids(state.racks@[player]@))
                    } else {
                        script::fail(trace, RackPreferenceError::NotSeated)
                    },
            ),
    )
}

fn authoritative_rack<'a>(script: &mut Script<'a>, game_id: GameId, user_id: &str) -> (rack: Result<
    Vec<u16>,
    Stop<'a, RackPreferenceError>,
>)
    ensures
        script::ran(rack, final(script)@, |rack: Vec<u16>| rack@) == rack_run(
            old(script)@,
            game_id,
            user_id@,
        ),
{
    broadcast use vstd::std_specs::btree::group_btree_axioms;

    let player: PlayerId = match player_for_user(script, game_id, user_id) {
        Ok(player) => player,
        Err(stop) => return Err(service_stop(stop)),
    };
    let state = match recover_game(script, game_id) {
        Ok(state) => state,
        Err(stop) => return Err(journal_stop(stop)),
    };
    let rack = match state.racks.get(&player) {
        Some(rack) => rack,
        None => return Err(Stop::Fail(RackPreferenceError::NotSeated)),
    };
    let mut ids: Vec<u16> = Vec::new();
    let mut at: usize = 0;
    while at < rack.len()
        invariant
            at <= rack@.len(),
            ids@ == tile_ids(rack@).take(at as int),
        decreases rack@.len() - at,
    {
        ids.push(rack[at].id);
        at = at + 1;
        assert(ids@ =~= tile_ids(rack@).take(at as int));
    }
    assert(tile_ids(rack@).take(at as int) =~= tile_ids(rack@));
    Ok(ids)
}

/// The key of a member's preference in a game.
pub open spec fn preference_id_of(game_id: GameId, user_id: Seq<char>) -> Seq<char> {
    text::colon_pair(ids::id_text_of(game_id), user_id)
}

fn preference_id(game_id: GameId, user_id: &str) -> (id: String)
    ensures
        id@ == preference_id_of(game_id, user_id@),
{
    colon_joined(id_text(game_id).as_str(), user_id)
}

/// The order that stored preference rows give for a rack, or why the stored text is not a list of
/// tiles.
pub open spec fn preferred_order(rows: Seq<Row>, rack: Seq<u16>) -> Result<Seq<u16>, String> {
    match store::first_text_of(rows, "tile_order"@) {
        None => Ok(reconciled(Seq::empty(), rack)),
        Some(text) => match order_in(text) {
            Ok(preferred) => Ok(reconciled(preferred, rack)),
            Err(reason) => Err(reason),
        },
    }
}

/// Load a member's rack order.
pub open spec fn load_rack_order_run(trace: Trace, game_id: GameId, user_id: Seq<char>) -> Run<
    Seq<u16>,
    RackPreferenceError,
> {
    script::chain(
        rack_run(trace, game_id, user_id),
        |rack: Seq<u16>, trace: Trace|
            script::query(
                trace,
                Op::select("rack_preferences"@).where_text(
                    "rack_preference_id"@,
                    preference_id_of(game_id, user_id),
                ),
                |rows: Seq<Row>, trace: Trace|
                    match preferred_order(rows, rack) {
                        Ok(order) => script::done(trace, order),
                        Err(reason) => script::fail(
                            trace,
                            RackPreferenceError::Serialization(reason),
                        ),
                    },
            ),
    )
}

/// Loads and reconciles one authorized player's private rack preference.
pub fn load_rack_order<'a>(script: &mut Script<'a>, game_id: GameId, user_id: &str) -> (order:
    Result<Vec<u16>, Stop<'a, RackPreferenceError>>)
    ensures
        script::ran(order, final(script)@, |order: Vec<u16>| order@) == load_rack_order_run(
            old(script)@,
            game_id,
            user_id@,
        ),
{
    let rack = authoritative_rack(script, game_id, user_id)?;
    let rows = script.query(
        Statement::select("rack_preferences").where_text(
            "rack_preference_id",
            preference_id(game_id, user_id).as_str(),
        ),
    )?;
    let preferred: Vec<u16> = match first_text(rows, "tile_order") {
        None => Vec::new(),
        Some(text) => match read_order(text.as_str()) {
            Ok(preferred) => preferred,
            Err(reason) => return Err(Stop::Fail(RackPreferenceError::Serialization(reason))),
        },
    };
    Ok(reconcile_rack_order(preferred.as_slice(), rack.as_slice()))
}

pub open spec fn upsert_preference_op(
    game_id: GameId,
    user_id: Seq<char>,
    order: Seq<u16>,
    updated_at_ms: i64,
) -> Op {
    Op::upsert("rack_preferences"@)
        .where_text("rack_preference_id"@, preference_id_of(game_id, user_id))
        .text("rack_preference_id"@, preference_id_of(game_id, user_id))
        .text("game_id"@, ids::id_text_of(game_id))
        .text("user_id"@, user_id)
        .text("tile_order"@, order_text_of(order))
        .integer("updated_at_ms"@, updated_at_ms as int)
}

/// Reconcile and store a member's rack order.
pub open spec fn save_rack_order_run(
    trace: Trace,
    game_id: GameId,
    user_id: Seq<char>,
    preferred: Seq<u16>,
    updated_at_ms: i64,
) -> Run<Seq<u16>, RackPreferenceError> {
    script::chain(
        rack_run(trace, game_id, user_id),
        |rack: Seq<u16>, trace: Trace|
            script::perform(
                trace,
                upsert_preference_op(
                    game_id,
                    user_id,
                    reconciled(preferred, rack),
                    updated_at_ms,
                ),
                |trace: Trace| script::done(trace, reconciled(preferred, rack)),
            ),
    )
}

/// Persists one authorized player's private rack preference after reconciliation.
pub fn save_rack_order<'a>(
    script: &mut Script<'a>,
    game_id: GameId,
    user_id: &str,
    preferred: &[u16],
    updated_at_ms: i64,
) -> (saved: Result<Vec<u16>, Stop<'a, RackPreferenceError>>)
    ensures
        script::ran(saved, final(script)@, |order: Vec<u16>| order@) == save_rack_order_run(
            old(script)@,
            game_id,
            user_id@,
            preferred@,
            updated_at_ms,
        ),
{
    let rack = authoritative_rack(script, game_id, user_id)?;
    let order = reconcile_rack_order(preferred, rack.as_slice());
    let text = match order_text(&order) {
        Ok(text) => text,
        Err(reason) => return Err(Stop::Fail(RackPreferenceError::Serialization(reason))),
    };
    script.perform(
        Statement::upsert("rack_preferences")
            .where_text("rack_preference_id", preference_id(game_id, user_id).as_str())
            .text("rack_preference_id", preference_id(game_id, user_id).as_str())
            .text("game_id", id_text(game_id).as_str())
            .text("user_id", user_id)
            .text("tile_order", text.as_str())
            .integer("updated_at_ms", updated_at_ms),
    )?;
    Ok(order)
}

} // verus!
