//! The dashboard of one user: pending challenges and invitations, and the user's games.
use crate::order;
use crate::projections::ProjectionError;
use crate::script::{self, Run, Script, Stop, Trace};
use crate::store::{self, first_text, unsigned, Op, Row, Statement};
use crate::text::{self, text_precedes};
use vstd::prelude::*;

verus! {

/// A pending challenge or invitation.
#[derive(Debug, Clone, PartialEq, Eq)]
pub struct PendingItem {
    pub id: String,
    pub kind: String,
    pub direction: String,
    pub counterparty_user_id: Option<String>,
    pub counterparty_username: Option<String>,
    pub created_at_ms: i64,
}

/// The mathematical content of a [`PendingItem`].
#[verifier::ext_equal]
pub struct PendingView {
    pub id: Seq<char>,
    pub kind: Seq<char>,
    pub direction: Seq<char>,
    pub counterparty_user_id: Option<Seq<char>>,
    pub counterparty_username: Option<Seq<char>>,
    pub created_at_ms: i64,
}

impl View for PendingItem {
    type V = PendingView;

    open spec fn view(&self) -> PendingView {
        PendingView {
            id: self.id@,
            kind: self.kind@,
            direction: self.direction@,
            counterparty_user_id: text::opt_view(self.counterparty_user_id),
            counterparty_username: text::opt_view(self.counterparty_username),
            created_at_ms: self.created_at_ms,
        }
    }
}

/// One game on a dashboard.
#[derive(Debug, Clone, PartialEq, Eq)]
pub struct GameSummary {
    pub game_id: String,
    pub status: String,
    pub active_player_user_id: Option<String>,
    pub canonical_revision: u64,
    pub last_score: Option<u32>,
    pub winner_user_id: Option<String>,
    pub updated_at_ms: i64,
}

/// The mathematical content of a [`GameSummary`].
#[verifier::ext_equal]
pub struct SummaryView {
    pub game_id: Seq<char>,
    pub status: Seq<char>,
    pub active_player_user_id: Option<Seq<char>>,
    pub canonical_revision: u64,
    pub last_score: Option<u32>,
    pub winner_user_id: Option<Seq<char>>,
    pub updated_at_ms: i64,
}

impl View for GameSummary {
    type V = SummaryView;

    open spec fn view(&self) -> SummaryView {
        SummaryView {
            game_id: self.game_id@,
            status: self.status@,
            active_player_user_id: text::opt_view(self.active_player_user_id),
            canonical_revision: self.canonical_revision,
            last_score: self.last_score,
            winner_user_id: text::opt_view(self.winner_user_id),
            updated_at_ms: self.updated_at_ms,
        }
    }
}

/// The complete dashboard of one user.
#[derive(Debug, Clone, PartialEq, Eq)]
pub struct DashboardProjection {
    pub pending: Vec<PendingItem>,
    pub games: Vec<GameSummary>,
}

pub open spec fn pending_view(items: Seq<PendingItem>) -> Seq<PendingView> {
    Seq::new(items.len(), |i: int| items[i]@)
}

pub open spec fn summaries_view(items: Seq<GameSummary>) -> Seq<SummaryView> {
    Seq::new(items.len(), |i: int| items[i]@)
}

/// Newer items come first, items of one moment in the order of their identities.
pub open spec fn pending_before(left: PendingView, right: PendingView) -> bool {
    left.created_at_ms > right.created_at_ms || (left.created_at_ms == right.created_at_ms
        && text::precedes(left.id, right.id))
}

/// Newer activity comes first, games of one moment in the order of their identities.
pub open spec fn summary_before(left: SummaryView, right: SummaryView) -> bool {
    left.updated_at_ms > right.updated_at_ms || (left.updated_at_ms == right.updated_at_ms
        && text::precedes(left.game_id, right.game_id))
}

fn item_before(left: &PendingItem, right: &PendingItem) -> (before: bool)
    ensures
        before == pending_before(left@, right@),
{
    left.created_at_ms > right.created_at_ms || (left.created_at_ms == right.created_at_ms
        && text_precedes(left.id.as_str(), right.id.as_str()))
}

fn game_before(left: &GameSummary, right: &GameSummary) -> (before: bool)
    ensures
        before == summary_before(left@, right@),
{
    left.updated_at_ms > right.updated_at_ms || (left.updated_at_ms == right.updated_at_ms
        && text_precedes(left.game_id.as_str(), right.game_id.as_str()))
}

/// Items in dashboard order.
pub open spec fn arranged_pending(items: Seq<PendingView>) -> Seq<PendingView> {
    order::arranged(items, |left: PendingView, right: PendingView| pending_before(left, right))
}

/// Games by most recent activity.
pub open spec fn arranged_summaries(items: Seq<SummaryView>) -> Seq<SummaryView> {
    order::arranged(items, |left: SummaryView, right: SummaryView| summary_before(left, right))
}

fn place_pending(sorted: &mut Vec<PendingItem>, item: PendingItem, Ghost(items): Ghost<
    Seq<PendingView>,
>)
    requires
        pending_view(old(sorted)@) == arranged_pending(items),
    ensures
        pending_view(final(sorted)@) == arranged_pending(items.push(item@)),
{
    let ghost before = |left: PendingView, right: PendingView| pending_before(left, right);
    let ghost content = pending_view(sorted@);
    let mut at: usize = 0;
    assert(content.skip(0) =~= content);
    while at < sorted.len() && !item_before(&item, &sorted[at])
        invariant
            at <= sorted@.len(),
            *sorted == *old(sorted),
            content == pending_view(sorted@),
            before == (|left: PendingView, right: PendingView| pending_before(left, right)),
            order::slot(content, item@, before) == at + order::slot(
                content.skip(at as int),
                item@,
                before,
            ),
        decreases sorted@.len() - at,
    {
        proof {
            order::slot_step(content, at as int, item@, before);
        }
        at = at + 1;
    }
    proof {
        if at < sorted@.len() {
            order::slot_step(content, at as int, item@, before);
        }
        assert(items.push(item@).drop_last() =~= items);
        assert(pending_view(sorted@.insert(at as int, item)) =~= content.insert(at as int, item@));
    }
    sorted.insert(at, item);
}

fn place_summary(sorted: &mut Vec<GameSummary>, item: GameSummary, Ghost(items): Ghost<
    Seq<SummaryView>,
>)
    requires
        summaries_view(old(sorted)@) == arranged_summaries(items),
    ensures
        summaries_view(final(sorted)@) == arranged_summaries(items.push(item@)),
{
    let ghost before = |left: SummaryView, right: SummaryView| summary_before(left, right);
    let ghost content = summaries_view(sorted@);
    let mut at: usize = 0;
    assert(content.skip(0) =~= content);
    while at < sorted.len() && !game_before(&item, &sorted[at])
        invariant
            at <= sorted@.len(),
            *sorted == *old(sorted),
            content == summaries_view(sorted@),
            before == (|left: SummaryView, right: SummaryView| summary_before(left, right)),
            order::slot(content, item@, before) == at + order::slot(
                content.skip(at as int),
                item@,
                before,
            ),
        decreases sorted@.len() - at,
    {
        proof {
            order::slot_step(content, at as int, item@, before);
        }
        at = at + 1;
    }
    proof {
        if at < sorted@.len() {
            order::slot_step(content, at as int, item@, before);
        }
        assert(items.push(item@).drop_last() =~= items);
        assert(summaries_view(sorted@.insert(at as int, item)) =~= content.insert(
            at as int,
            item@,
        ));
    }
    sorted.insert(at, item);
}

/// Pending items come in dashboard order, and none is lost or made up.
pub proof fn pending_items_are_ordered(items: Seq<PendingView>)
    ensures
        arranged_pending(items).to_multiset() == items.to_multiset(),
        forall|i: int, j: int|
            0 <= i < j < items.len() ==> !pending_before(
                #[trigger] arranged_pending(items)[j],
                #[trigger] arranged_pending(items)[i],
            ),
{
    let before = |left: PendingView, right: PendingView| pending_before(left, right);
    assert forall|a: PendingView| !(#[trigger] before(a, a)) by {
        text::precedes_irreflexive(a.id);
    }
    assert forall|a: PendingView, b: PendingView, c: PendingView| #[trigger]
        before(a, b) && #[trigger] before(b, c) implies before(a, c) by {
        if a.created_at_ms == b.created_at_ms && b.created_at_ms == c.created_at_ms {
            text::precedes_transitive(a.id, b.id, c.id);
        }
    }
    assert forall|a: PendingView, b: PendingView, c: PendingView|
        !(#[trigger] before(a, b)) && !(#[trigger] before(b, c)) implies !before(a, c) by {
        if !text::precedes(a.id, b.id) && !text::precedes(b.id, c.id) {
            text::precedes_not_transitive(a.id, b.id, c.id);
        }
    }
    order::arranged_keeps_elements(items, before);
    order::arranged_in_order(items, before);
}

/// Games come by most recent activity, and none is lost or made up.
pub proof fn games_are_ordered(items: Seq<SummaryView>)
    ensures
        arranged_summaries(items).to_multiset() == items.to_multiset(),
        forall|i: int, j: int|
            0 <= i < j < items.len() ==> !summary_before(
                #[trigger] arranged_summaries(items)[j],
                #[trigger] arranged_summaries(items)[i],
            ),
{
    let before = |left: SummaryView, right: SummaryView| summary_before(left, right);
    assert forall|a: SummaryView| !(#[trigger] before(a, a)) by {
        text::precedes_irreflexive(a.game_id);
    }
    assert forall|a: SummaryView, b: SummaryView, c: SummaryView| #[trigger]
        before(a, b) && #[trigger] before(b, c) implies before(a, c) by {
        if text::precedes(a.game_id, b.game_id) && text::precedes(b.game_id, c.game_id) {
            text::precedes_transitive(a.game_id, b.game_id, c.game_id);
        }
    }
    assert forall|a: SummaryView, b: SummaryView, c: SummaryView|
        !(#[trigger] before(a, b)) && !(#[trigger] before(b, c)) implies !before(a, c) by {
        if !text::precedes(a.game_id, b.game_id) && !text::precedes(b.game_id, c.game_id) {
            text::precedes_not_transitive(a.game_id, b.game_id, c.game_id);
        }
    }
    order::arranged_keeps_elements(items, before);
    order::arranged_in_order(items, before);
}

/// Find the display name of a user.
pub open spec fn username_run(trace: Trace, user_id: Seq<char>) -> Run<
    Option<Seq<char>>,
    ProjectionError,
> {
    script::query(
        trace,
        Op::select("users"@).where_text("user_id"@, user_id),
        |rows: Seq<Row>, trace: Trace|
            script::done(trace, store::first_text_of(rows, "username_display"@)),
    )
}

fn username_for_user<'a>(script: &mut Script<'a>, user_id: &str) -> (name: Result<
    Option<String>,
    Stop<'a, ProjectionError>,
>)
    ensures
        script::ran(name, final(script)@, |name: Option<String>| text::opt_view(name))
            == username_run(old(script)@, user_id@),
{
    let rows = script.query(Statement::select("users").where_text("user_id", user_id))?;
    Ok(first_text(rows, "username_display"))
}

/// The side of a challenge on which a user stands.
#[derive(Debug, Clone, Copy, PartialEq, Eq, Structural)]
pub enum Side {
    Outgoing,
    Incoming,
}

impl Side {
    pub open spec fn direction_of(self) -> Seq<char> {
        match self {
            Side::Outgoing => "OUTGOING"@,
            Side::Incoming => "INCOMING"@,
        }
    }

    /// The column that names the other user.
    pub open spec fn counterparty_column_of(self) -> Seq<char> {
        match self {
            Side::Outgoing => "challenged_user_id"@,
            Side::Incoming => "challenger_user_id"@,
        }
    }

    /// The column that names this user.
    pub open spec fn own_column_of(self) -> Seq<char> {
        match self {
            Side::Outgoing => "challenger_user_id"@,
            Side::Incoming => "challenged_user_id"@,
        }
    }

    fn direction(self) -> (name: &'static str)
        ensures
            name@ == self.direction_of(),
    {
        match self {
            Side::Outgoing => "OUTGOING",
            Side::Incoming => "INCOMING",
        }
    }

    fn counterparty_column(self) -> (name: &'static str)
        ensures
            name@ == self.counterparty_column_of(),
    {
        match self {
            Side::Outgoing => "challenged_user_id",
            Side::Incoming => "challenger_user_id",
        }
    }

    fn own_column(self) -> (name: &'static str)
        ensures
            name@ == self.own_column_of(),
    {
        match self {
            Side::Outgoing => "challenger_user_id",
            Side::Incoming => "challenged_user_id",
        }
    }
}

/// Gather the challenges of `rows` from `index` on, after `items`.
pub open spec fn gather_challenges_run(
    trace: Trace,
    side: Side,
    rows: Seq<Row>,
    index: int,
    items: Seq<PendingView>,
) -> Run<Seq<PendingView>, ProjectionError>
    decreases rows.len() - index,
{
    if index >= rows.len() {
        script::done(trace, items)
    } else {
        let row = rows[index];
        match (row.text_at("challenge_id"@), row.text_at(side.counterparty_column_of())) {
            (Some(id), Some(counterparty)) => script::chain(
                username_run(trace, counterparty),
                |name: Option<Seq<char>>, trace: Trace|
                    match row.integer_at("created_at_ms"@) {
                        None => script::fail(trace, ProjectionError::Malformed),
                        Some(created_at_ms) => gather_challenges_run(
                            trace,
                            side,
                            rows,
                            index + 1,
                            items.push(
                                PendingView {
                                    id,
                                    kind: "CHALLENGE"@,
                                    direction: side.direction_of(),
                                    counterparty_user_id: Some(counterparty),
                                    counterparty_username: name,
                                    created_at_ms,
                                },
                            ),
                        ),
                    },
            ),
            _ => script::fail(trace, ProjectionError::Malformed),
        }
    }
}

/// Gather the user's pending challenges on one side.
pub open spec fn challenges_run(
    trace: Trace,
    user_id: Seq<char>,
    side: Side,
    items: Seq<PendingView>,
) -> Run<Seq<PendingView>, ProjectionError> {
    script::query(
        trace,
        Op::select("challenges"@).where_text(side.own_column_of(), user_id).where_text(
            "status"@,
            "PENDING"@,
        ),
        |rows: Seq<Row>, trace: Trace| gather_challenges_run(trace, side, rows, 0, items),
    )
}

/// The gathered items and the same items in order.
pub open spec fn shows_items(sorted: Seq<PendingItem>, items: Seq<PendingView>) -> bool {
    pending_view(sorted) == arranged_pending(items)
}

fn gather_challenges<'a>(
    script: &mut Script<'a>,
    user_id: &str,
    side: Side,
    sorted: &mut Vec<PendingItem>,
    Ghost(items): Ghost<Seq<PendingView>>,
) -> (gathered: Result<Ghost<Seq<PendingView>>, Stop<'a, ProjectionError>>)
    requires
        shows_items(old(sorted)@, items),
    ensures
        script::ran(gathered, final(script)@, |items: Ghost<Seq<PendingView>>| items@)
            == challenges_run(old(script)@, user_id@, side, items),
        gathered matches Ok(items) ==> shows_items(final(sorted)@, items@),
{
    let rows = script.query(
        Statement::select("challenges").where_text(side.own_column(), user_id).where_text(
            "status",
            "PENDING",
        ),
    )?;
    let ghost mut gathered = items;
    let mut index: usize = 0;
    while index < rows.len()
        invariant
            index <= rows@.len(),
            shows_items(sorted@, gathered),
            challenges_run(old(script)@, user_id@, side, items) == gather_challenges_run(
                script@,
                side,
                rows@,
                index as int,
                gathered,
            ),
        decreases rows@.len() - index,
    {
        let row = &rows[index];
        let (id, counterparty) = match (
            row.get_text("challenge_id"),
            row.get_text(side.counterparty_column()),
        ) {
            (Some(id), Some(counterparty)) => (id, counterparty),
            _ => return Err(Stop::Fail(ProjectionError::Malformed)),
        };
        let name = username_for_user(script, counterparty.as_str())?;
        let created_at_ms: i64 = match row.get_integer("created_at_ms") {
            Some(created_at_ms) => created_at_ms,
            None => return Err(Stop::Fail(ProjectionError::Malformed)),
        };
        let item = PendingItem {
            id,
            kind: "CHALLENGE".to_owned(),
            direction: side.direction().to_owned(),
            counterparty_user_id: Some(counterparty),
            counterparty_username: name,
            created_at_ms,
        };
        let ghost shown = item@;
        place_pending(sorted, item, Ghost(gathered));
        proof {
            gathered = gathered.push(shown);
        }
        index = index + 1;
    }
    Ok(Ghost(gathered))
}

/// The invitation in one stored row.
pub open spec fn invitation_row(row: Row) -> Option<PendingView> {
    match (row.text_at("invitation_id"@), row.integer_at("created_at_ms"@)) {
        (Some(id), Some(created_at_ms)) => Some(
            PendingView {
                id,
                kind: "INVITATION"@,
                direction: "OUTGOING"@,
                counterparty_user_id: None,
                counterparty_username: None,
                created_at_ms,
            },
        ),
        _ => None,
    }
}

/// Gather the invitations of `rows` from `index` on, after `items`.
pub open spec fn gather_invitations_run(
    trace: Trace,
    rows: Seq<Row>,
    index: int,
    items: Seq<PendingView>,
) -> Run<Seq<PendingView>, ProjectionError>
    decreases rows.len() - index,
{
    if index >= rows.len() {
        script::done(trace, items)
    } else {
        match invitation_row(rows[index]) {
            None => script::fail(trace, ProjectionError::Malformed),
            Some(item) => gather_invitations_run(trace, rows, index + 1, items.push(item)),
        }
    }
}

/// Gather the user's open invitations.
pub open spec fn invitations_run(
    trace: Trace,
    user_id: Seq<char>,
    items: Seq<PendingView>,
) -> Run<Seq<PendingView>, ProjectionError> {
    script::query(
        trace,
        Op::select("invitations"@).where_text("creator_user_id"@, user_id).where_text(
            "status"@,
            "ACTIVE"@,
        ),
        |rows: Seq<Row>, trace: Trace| gather_invitations_run(trace, rows, 0, items),
    )
}

fn gather_invitations<'a>(
    script: &mut Script<'a>,
    user_id: &str,
    sorted: &mut Vec<PendingItem>,
    Ghost(items): Ghost<Seq<PendingView>>,
) -> (gathered: Result<Ghost<Seq<PendingView>>, Stop<'a, ProjectionError>>)
    requires
        shows_items(old(sorted)@, items),
    ensures
        script::ran(gathered, final(script)@, |items: Ghost<Seq<PendingView>>| items@)
            == invitations_run(old(script)@, user_id@, items),
        gathered matches Ok(items) ==> shows_items(final(sorted)@, items@),
{
    let rows = script.query(
        Statement::select("invitations").where_text("creator_user_id", user_id).where_text(
            "status",
            "ACTIVE",
        ),
    )?;
    let ghost mut gathered = items;
    let mut index: usize = 0;
    while index < rows.len()
        invariant
            index <= rows@.len(),
            shows_items(sorted@, gathered),
            invitations_run(old(script)@, user_id@, items) == gather_invitations_run(
                script@,
                rows@,
                index as int,
                gathered,
            ),
        decreases rows@.len() - index,
    {
        let row = &rows[index];
        let (id, created_at_ms): (String, i64) = match (
            row.get_text("invitation_id"),
            row.get_integer("created_at_ms"),
        ) {
            (Some(id), Some(created_at_ms)) => (id, created_at_ms),
            _ => return Err(Stop::Fail(ProjectionError::Malformed)),
        };
        let item = PendingItem {
            id,
            kind: "INVITATION".to_owned(),
            direction: "OUTGOING".to_owned(),
            counterparty_user_id: None,
            counterparty_username: None,
            created_at_ms,
        };
        let ghost shown = item@;
        place_pending(sorted, item, Ghost(gathered));
        proof {
            gathered = gathered.push(shown);
        }
        index = index + 1;
    }
    Ok(Ghost(gathered))
}

/// The summary in one stored row.
pub open spec fn summary_row(row: Row) -> Option<SummaryView> {
    let score = row.integer_at("last_score"@);
    match (
        row.text_at("game_id"@),
        row.text_at("status"@),
        store::unsigned_of(row.integer_at("canonical_revision"@)),
        row.integer_at("updated_at_ms"@),
    ) {
        (
            Some(game_id),
            Some(status),
            Some(canonical_revision),
            Some(updated_at_ms),
        ) => if score is Some && !(0 <= score->0 <= u32::MAX) {
            None
        } else {
            Some(
                SummaryView {
                    game_id,
                    status,
                    active_player_user_id: row.text_at("active_player_user_id"@),
                    canonical_revision,
                    last_score: match score {
                        Some(score) => Some(score as u32),
                        None => None,
                    },
                    winner_user_id: row.text_at("winner_user_id"@),
                    updated_at_ms,
                },
            )
        },
        _ => None,
    }
}

fn read_summary(row: &Row) -> (summary: Option<GameSummary>)
    ensures
        match summary {
            Some(summary) => summary_row(*row) == Some(summary@),
            None => summary_row(*row) is None,
        },
{
    let last_score: Option<u32> = match row.get_integer("last_score") {
        Some(score) => if 0 <= score && score <= u32::MAX as i64 {
            Some(score as u32)
        } else {
            return None;
        },
        None => None,
    };
    match (
        row.get_text("game_id"),
        row.get_text("status"),
        unsigned(row.get_integer("canonical_revision")),
        row.get_integer("updated_at_ms"),
    ) {
        (
            Some(game_id),
            Some(status),
            Some(canonical_revision),
            Some(updated_at_ms),
        ) => Some(
            GameSummary {
                game_id,
                status,
                active_player_user_id: row.get_text("active_player_user_id"),
                canonical_revision,
                last_score,
                winner_user_id: row.get_text("winner_user_id"),
                updated_at_ms,
            },
        ),
        _ => None,
    }
}

/// Gather the summaries of the memberships from `index` on, after `items`.
pub open spec fn gather_summaries_run(
    trace: Trace,
    memberships: Seq<Row>,
    index: int,
    items: Seq<SummaryView>,
) -> Run<Seq<SummaryView>, ProjectionError>
    decreases memberships.len() - index,
{
    if index >= memberships.len() {
        script::done(trace, items)
    } else {
        match memberships[index].text_at("game_id"@) {
            None => script::fail(trace, ProjectionError::Malformed),
            Some(game_id) => script::query(
                trace,
                Op::select("game_summaries"@).where_text("game_id"@, game_id),
                |rows: Seq<Row>, trace: Trace|
                    if rows.len() == 0 {
                        gather_summaries_run(trace, memberships, index + 1, items)
                    } else {
                        match summary_row(rows[0]) {
                            None => script::fail(trace, ProjectionError::Malformed),
                            Some(summary) => gather_summaries_run(
                                trace,
                                memberships,
                                index + 1,
                                items.push(summary),
                            ),
                        }
                    },
            ),
        }
    }
}

/// Load a user's games by most recent activity.
pub open spec fn user_game_summaries_run(trace: Trace, user_id: Seq<char>) -> Run<
    Seq<SummaryView>,
    ProjectionError,
> {
    script::query(
        trace,
        Op::select("game_players"@).where_text("user_id"@, user_id),
        |memberships: Seq<Row>, trace: Trace|
            script::reshape(
                gather_summaries_run(trace, memberships, 0, Seq::empty()),
                |items: Seq<SummaryView>| arranged_summaries(items),
            ),
    )
}

/// Loads one user's active and completed games ordered by most recent activity.
pub fn user_game_summaries<'a>(script: &mut Script<'a>, user_id: &str) -> (loaded: Result<
    Vec<GameSummary>,
    Stop<'a, ProjectionError>,
>)
    ensures
        script::ran(loaded, final(script)@, |games: Vec<GameSummary>| summaries_view(games@))
            == user_game_summaries_run(old(script)@, user_id@),
{
    let memberships = script.query(
        Statement::select("game_players").where_text("user_id", user_id),
    )?;
    let ghost mut gathered: Seq<SummaryView> = Seq::empty();
    let mut sorted: Vec<GameSummary> = Vec::new();
    assert(summaries_view(sorted@) =~= arranged_summaries(gathered));
    let mut index: usize = 0;
    while index < memberships.len()
        invariant
            index <= memberships@.len(),
            summaries_view(sorted@) == arranged_summaries(gathered),
            user_game_summaries_run(old(script)@, user_id@) == script::reshape(
                gather_summaries_run(script@, memberships@, index as int, gathered),
                |items: Seq<SummaryView>| arranged_summaries(items),
            ),
        decreases memberships@.len() - index,
    {
        let game_id = match memberships[index].get_text("game_id") {
            Some(game_id) => game_id,
            None => return Err(Stop::Fail(ProjectionError::Malformed)),
        };
        let rows = script.query(
            Statement::select("game_summaries").where_text("game_id", game_id.as_str()),
        )?;
        if rows.len() > 0 {
            match read_summary(&rows[0]) {
                Some(summary) => {
                    let ghost shown = summary@;
                    place_summary(&mut sorted, summary, Ghost(gathered));
                    proof {
                        gathered = gathered.push(shown);
                    }
                },
                None => return Err(Stop::Fail(ProjectionError::Malformed)),
            }
        }
        index = index + 1;
    }
    Ok(sorted)
}

/// Load the complete dashboard of a user.
pub open spec fn dashboard_run(trace: Trace, user_id: Seq<char>) -> Run<
    (Seq<PendingView>, Seq<SummaryView>),
    ProjectionError,
> {
    script::chain(
        challenges_run(trace, user_id, Side::Outgoing, Seq::empty()),
        |outgoing: Seq<PendingView>, trace: Trace|
            script::chain(
                challenges_run(trace, user_id, Side::Incoming, outgoing),
                |challenges: Seq<PendingView>, trace: Trace|
                    script::chain(
                        invitations_run(trace, user_id, challenges),
                        |items: Seq<PendingView>, trace: Trace|
                            script::reshape(
                                user_game_summaries_run(trace, user_id),
                                |games: Seq<SummaryView>| (arranged_pending(items), games),
                            ),
                    ),
            ),
    )
}

/// Loads pending challenges and invitations and the games of one user.
pub fn dashboard_projection<'a>(script: &mut Script<'a>, user_id: &str) -> (loaded: Result<
    DashboardProjection,
    Stop<'a, ProjectionError>,
>)
    ensures
        script::ran(
            loaded,
            final(script)@,
            |dashboard: DashboardProjection|
                (pending_view(dashboard.pending@), summaries_view(dashboard.games@)),
        ) == dashboard_run(old(script)@, user_id@),
{
    let mut pending: Vec<PendingItem> = Vec::new();
    assert(pending_view(pending@) =~= arranged_pending(Seq::empty()));
    let Ghost(outgoing) = gather_challenges(
        script,
        user_id,
        Side::Outgoing,
        &mut pending,
        Ghost(Seq::empty()),
    )?;
    let Ghost(challenges) = gather_challenges(
        script,
        user_id,
        Side::Incoming,
        &mut pending,
        Ghost(outgoing),
    )?;
    let Ghost(items) = gather_invitations(script, user_id, &mut pending, Ghost(challenges))?;
    let games = user_game_summaries(script, user_id)?;
    Ok(DashboardProjection { pending, games })
}

} // verus!
