//! Rebuildable game summary, score and move-history projections.
use crate::game::{GameEvent, GameId, GameState, GameStatus, PlayerId};
use crate::ids::{self, id_text};
use crate::script::{self, Run, Script, Stop, Trace};
use crate::store::{self, first_text, signed, unsigned, Datum, Direction, Op, Row, Statement, Value};
use crate::text::{self, colon_joined, decimal_text, joined, same_text, text_precedes};
use vstd::prelude::*;

verus! {

/// Projection failure.
#[derive(Debug, Clone, Copy, PartialEq, Eq, Structural)]
pub enum ProjectionError {
    /// A revision cannot be represented.
    Revision,
    /// A stored row lacks a field or holds a wrong kind of value.
    Malformed,
}

impl ProjectionError {
    pub open spec fn message_of(self) -> Seq<char> {
        match self {
            ProjectionError::Revision => "projection revision is invalid"@,
            ProjectionError::Malformed => "projection row is malformed"@,
        }
    }

    pub fn message(self) -> (message: String)
        ensures
            message@ == self.message_of(),
    {
        match self {
            ProjectionError::Revision => "projection revision is invalid".to_owned(),
            ProjectionError::Malformed => "projection row is malformed".to_owned(),
        }
    }
}

/// What the history shows of an event: who acted, what happened, and what it scored.
pub open spec fn history_of(event: GameEvent) -> (Option<PlayerId>, Seq<char>, u32) {
    match event {
        GameEvent::GameStarted { .. } => (None, "GAME_STARTED"@, 0),
        GameEvent::TilesPlayed { player_id, score, .. } => (
            Some(player_id),
            "TILES_PLAYED"@,
            score,
        ),
        GameEvent::TilesExchanged { player_id, .. } => (Some(player_id), "TILES_EXCHANGED"@, 0),
        GameEvent::TurnPassed { player_id } => (Some(player_id), "TURN_PASSED"@, 0),
        GameEvent::GameResigned { player_id, .. } => (Some(player_id), "GAME_RESIGNED"@, 0),
        GameEvent::GameCompleted { .. } => (None, "GAME_COMPLETED"@, 0),
    }
}

fn history_fields(event: &GameEvent) -> (fields: (Option<PlayerId>, &'static str, u32))
    ensures
        (fields.0, fields.1@, fields.2) == history_of(*event),
{
    match event {
        GameEvent::GameStarted { .. } => (None, "GAME_STARTED", 0),
        GameEvent::TilesPlayed { player_id, score, .. } => (
            Some(*player_id),
            "TILES_PLAYED",
            *score,
        ),
        GameEvent::TilesExchanged { player_id, .. } => (Some(*player_id), "TILES_EXCHANGED", 0),
        GameEvent::TurnPassed { player_id } => (Some(*player_id), "TURN_PASSED", 0),
        GameEvent::GameResigned { player_id, .. } => (Some(*player_id), "GAME_RESIGNED", 0),
        GameEvent::GameCompleted { .. } => (None, "GAME_COMPLETED", 0),
    }
}

/// The score of the last play among `events`.
pub open spec fn last_score_of(events: Seq<&GameEvent>) -> Option<u32>
    decreases events.len(),
{
    if events.len() == 0 {
        None
    } else {
        match *events.last() {
            GameEvent::TilesPlayed { score, .. } => Some(score),
            _ => last_score_of(events.drop_last()),
        }
    }
}

fn last_score(events: &Vec<&GameEvent>) -> (score: Option<u32>)
    ensures
        score == last_score_of(events@),
{
    let mut end: usize = events.len();
    assert(events@.take(end as int) =~= events@);
    while end > 0
        invariant
            end <= events@.len(),
            last_score_of(events@) == last_score_of(events@.take(end as int)),
        decreases end,
    {
        assert(events@.take(end as int).drop_last() =~= events@.take(end - 1));
        assert(events@.take(end as int).last() == events@[end - 1]);
        end = end - 1;
        match events[end] {
            GameEvent::TilesPlayed { score, .. } => return Some(*score),
            _ => {},
        }
    }
    None
}

/// Find the user who holds a player's seat.
pub open spec fn user_for_player_run(
    trace: Trace,
    game: Seq<char>,
    player: PlayerId,
) -> Run<Option<Seq<char>>, ProjectionError> {
    script::query(
        trace,
        Op::select("game_players"@).where_text("game_id"@, game).where_text(
            "game_player_id"@,
            ids::id_text_of(player),
        ),
        |rows: Seq<Row>, trace: Trace|
            script::done(trace, store::first_text_of(rows, "user_id"@)),
    )
}

fn user_for_player<'a>(script: &mut Script<'a>, game: &str, player: PlayerId) -> (user: Result<
    Option<String>,
    Stop<'a, ProjectionError>,
>)
    ensures
        script::ran(user, final(script)@, |user: Option<String>| text::opt_view(user))
            == user_for_player_run(old(script)@, game@, player),
{
    let rows = script.query(
        Statement::select("game_players").where_text("game_id", game).where_text(
            "game_player_id",
            id_text(player).as_str(),
        ),
    )?;
    Ok(first_text(rows, "user_id"))
}

/// Find the user who holds a seat, where there is one to look for.
pub open spec fn user_for_option_run(
    trace: Trace,
    game: Seq<char>,
    player: Option<PlayerId>,
) -> Run<Option<Seq<char>>, ProjectionError> {
    match player {
        Some(player) => user_for_player_run(trace, game, player),
        None => script::done(trace, None),
    }
}

fn user_for_option<'a>(script: &mut Script<'a>, game: &str, player: Option<PlayerId>) -> (user:
    Result<Option<String>, Stop<'a, ProjectionError>>)
    ensures
        script::ran(user, final(script)@, |user: Option<String>| text::opt_view(user))
            == user_for_option_run(old(script)@, game@, player),
{
    match player {
        Some(player) => user_for_player(script, game, player),
        None => Ok(None),
    }
}

pub open spec fn insert_move_op(
    game: Seq<char>,
    revision: u64,
    user: Option<Seq<char>>,
    event: GameEvent,
    updated_at_ms: i64,
) -> Op {
    Op::insert("move_history"@)
        .text("move_id"@, text::colon_pair(game, text::decimal(revision as nat)))
        .text("game_id"@, game)
        .integer("revision"@, revision as int)
        .value("player_user_id"@, store::datum_of_option(user))
        .text("event_kind"@, history_of(event).1)
        .integer("score_delta"@, history_of(event).2 as int)
        .integer("created_at_ms"@, updated_at_ms as int)
}

/// Write the history of the events from `index` on; the first event has revision `before + 1`.
pub open spec fn write_history_run(
    trace: Trace,
    game: Seq<char>,
    before: u64,
    events: Seq<&GameEvent>,
    updated_at_ms: i64,
    index: int,
) -> Run<(), ProjectionError>
    decreases events.len() - index,
{
    if index >= events.len() {
        script::done(trace, ())
    } else {
        let revision = before + index + 1;
        script::chain(
            user_for_option_run(trace, game, history_of(*events[index]).0),
            |user: Option<Seq<char>>, trace: Trace|
                if revision > i64::MAX {
                    script::fail(trace, ProjectionError::Revision)
                } else {
                    script::perform(
                        trace,
                        insert_move_op(game, revision as u64, user, *events[index], updated_at_ms),
                        |trace: Trace|
                            write_history_run(
                                trace,
                                game,
                                before,
                                events,
                                updated_at_ms,
                                index + 1,
                            ),
                    )
                },
        )
    }
}

fn write_history<'a>(
    script: &mut Script<'a>,
    game: &str,
    before: u64,
    events: &Vec<&'a GameEvent>,
    updated_at_ms: i64,
) -> (written: Result<(), Stop<'a, ProjectionError>>)
    requires
        before + events@.len() <= u64::MAX,
    ensures
        script::ran(written, final(script)@, |written: ()| written) == write_history_run(
            old(script)@,
            game@,
            before,
            events@,
            updated_at_ms,
            0,
        ),
{
    let mut index: usize = 0;
    while index < events.len()
        invariant
            index <= events@.len(),
            before + events@.len() <= u64::MAX,
            write_history_run(old(script)@, game@, before, events@, updated_at_ms, 0)
                == write_history_run(
                script@,
                game@,
                before,
                events@,
                updated_at_ms,
                index as int,
            ),
        decreases events@.len() - index,
    {
        let revision: u64 = before + index as u64 + 1;
        let (player, kind, score_delta): (Option<PlayerId>, &'static str, u32) = history_fields(
            events[index],
        );
        let user = user_for_option(script, game, player)?;
        let stored: i64 = match signed(revision) {
            Some(stored) => stored,
            None => return Err(Stop::Fail(ProjectionError::Revision)),
        };
        script.perform(
            Statement::insert("move_history")
                .text("move_id", colon_joined(game, decimal_text(revision).as_str()).as_str())
                .text("game_id", game)
                .integer("revision", stored)
                .value("player_user_id", Value::optional_text(&user))
                .text("event_kind", kind)
                .integer("score_delta", score_delta as i64)
                .integer("created_at_ms", updated_at_ms),
        )?;
        index = index + 1;
    }
    Ok(())
}

pub open spec fn status_text(status: GameStatus) -> Seq<char> {
    match status {
        GameStatus::Active => "ACTIVE"@,
        GameStatus::Completed => "COMPLETED"@,
    }
}

pub open spec fn datum_of_score(score: Option<u32>) -> Datum {
    match score {
        Some(score) => Datum::Integer(score as int),
        None => Datum::Null,
    }
}

pub open spec fn summary_op(
    game: Seq<char>,
    state: GameState,
    events: Seq<&GameEvent>,
    active: Option<Seq<char>>,
    winner: Option<Seq<char>>,
    updated_at_ms: i64,
) -> Op {
    Op::upsert("game_summaries"@)
        .where_text("game_id"@, game)
        .text("game_id"@, game)
        .text("status"@, status_text(state.status))
        .value("active_player_user_id"@, store::datum_of_option(active))
        .integer("canonical_revision"@, state.revision as int)
        .value("last_score"@, datum_of_score(last_score_of(events)))
        .value("winner_user_id"@, store::datum_of_option(winner))
        .integer("updated_at_ms"@, updated_at_ms as int)
}

/// Write the summary row of a game.
pub open spec fn write_summary_run(
    trace: Trace,
    game: Seq<char>,
    state: GameState,
    events: Seq<&GameEvent>,
    updated_at_ms: i64,
) -> Run<(), ProjectionError> {
    script::chain(
        user_for_player_run(trace, game, state.active_player),
        |active: Option<Seq<char>>, trace: Trace|
            if state.revision > i64::MAX {
                script::fail(trace, ProjectionError::Revision)
            } else {
                script::chain(
                    user_for_option_run(trace, game, state.winner),
                    |winner: Option<Seq<char>>, trace: Trace|
                        script::perform(
                            trace,
                            summary_op(game, state, events, active, winner, updated_at_ms),
                            |trace: Trace| script::done(trace, ()),
                        ),
                )
            },
    )
}

fn write_summary<'a>(
    script: &mut Script<'a>,
    game: &str,
    state: &GameState,
    events: &Vec<&'a GameEvent>,
    updated_at_ms: i64,
) -> (written: Result<(), Stop<'a, ProjectionError>>)
    ensures
        script::ran(written, final(script)@, |written: ()| written) == write_summary_run(
            old(script)@,
            game@,
            *state,
            events@,
            updated_at_ms,
        ),
{
    let status = match state.status {
        GameStatus::Active => "ACTIVE",
        GameStatus::Completed => "COMPLETED",
    };
    let active = user_for_player(script, game, state.active_player)?;
    let revision: i64 = match signed(state.revision) {
        Some(revision) => revision,
        None => return Err(Stop::Fail(ProjectionError::Revision)),
    };
    let score = match last_score(events) {
        Some(score) => Value::Integer(score as i64),
        None => Value::Null,
    };
    let winner = user_for_option(script, game, state.winner)?;
    script.perform(
        Statement::upsert("game_summaries")
            .where_text("game_id", game)
            .text("game_id", game)
            .text("status", status)
            .value("active_player_user_id", Value::optional_text(&active))
            .integer("canonical_revision", revision)
            .value("last_score", score)
            .value("winner_user_id", Value::optional_text(&winner))
            .integer("updated_at_ms", updated_at_ms),
    )
}

/// How a completed game went for a player.
pub open spec fn outcome_text(winner: Option<PlayerId>, player: PlayerId) -> Seq<char> {
    match winner {
        Some(winner) => if winner == player {
            "WIN"@
        } else {
            "LOSS"@
        },
        None => "TIE"@,
    }
}

pub open spec fn insert_score_op(
    game: Seq<char>,
    user: Seq<char>,
    state: GameState,
    player: PlayerId,
    updated_at_ms: i64,
) -> Op {
    Op::insert("game_scores"@)
        .text("game_player_score_id"@, text::colon_pair(game, user))
        .text("game_id"@, game)
        .text("user_id"@, user)
        .integer("score"@, state.scores@[player] as int)
        .text("outcome"@, outcome_text(state.winner, player))
        .integer("updated_at_ms"@, updated_at_ms as int)
}

/// Write the final scores of the players from `index` on.
pub open spec fn write_scores_run(
    trace: Trace,
    game: Seq<char>,
    state: GameState,
    updated_at_ms: i64,
    index: int,
) -> Run<(), ProjectionError>
    decreases state.players@.len() - index,
{
    if index >= state.players@.len() {
        script::done(trace, ())
    } else {
        script::chain(
            user_for_player_run(trace, game, state.players@[index]),
            |user: Option<Seq<char>>, trace: Trace|
                match user {
                    None => script::fail(trace, ProjectionError::Malformed),
                    Some(user) => script::perform(
                        trace,
                        insert_score_op(game, user, state, state.players@[index], updated_at_ms),
                        |trace: Trace|
                            write_scores_run(trace, game, state, updated_at_ms, index + 1),
                    ),
                },
        )
    }
}

fn write_scores<'a>(script: &mut Script<'a>, game: &str, state: &GameState, updated_at_ms: i64) -> (
    written: Result<(), Stop<'a, ProjectionError>>)
    requires
        state.scored(),
    ensures
        script::ran(written, final(script)@, |written: ()| written) == write_scores_run(
            old(script)@,
            game@,
            *state,
            updated_at_ms,
            0,
        ),
{
    broadcast use vstd::std_specs::btree::group_btree_axioms;

    let mut index: usize = 0;
    while index < state.players.len()
        invariant
            index <= state.players@.len(),
            state.scored(),
            write_scores_run(old(script)@, game@, *state, updated_at_ms, 0) == write_scores_run(
                script@,
                game@,
                *state,
                updated_at_ms,
                index as int,
            ),
        decreases state.players@.len() - index,
    {
        let player: PlayerId = state.players[index];
        assert(state.scores@.contains_key(state.players@[index as int]));
        let user = match user_for_player(script, game, player)? {
            Some(user) => user,
            None => return Err(Stop::Fail(ProjectionError::Malformed)),
        };
        let outcome = match state.winner {
            Some(winner) => if winner == player {
                "WIN"
            } else {
                "LOSS"
            },
            None => "TIE",
        };
        let score: u32 = *state.scores.get(&player).unwrap();
        script.perform(
            Statement::insert("game_scores")
                .text("game_player_score_id", colon_joined(game, user.as_str()).as_str())
                .text("game_id", game)
                .text("user_id", user.as_str())
                .integer("score", score as i64)
                .text("outcome", outcome)
                .integer("updated_at_ms", updated_at_ms),
        )?;
        index = index + 1;
    }
    Ok(())
}

/// Aggregate completed-game statistics of one user.
#[derive(Debug, Clone, PartialEq, Eq)]
pub struct UserScoreTotals {
    pub user_id: String,
    pub completed_games: u64,
    pub wins: u64,
    pub ties: u64,
    pub total_score: u64,
}

/// The mathematical content of [`UserScoreTotals`].
#[verifier::ext_equal]
pub struct TotalsView {
    pub user_id: Seq<char>,
    pub completed_games: u64,
    pub wins: u64,
    pub ties: u64,
    pub total_score: u64,
}

impl View for UserScoreTotals {
    type V = TotalsView;

    open spec fn view(&self) -> TotalsView {
        TotalsView {
            user_id: self.user_id@,
            completed_games: self.completed_games,
            wins: self.wins,
            ties: self.ties,
            total_score: self.total_score,
        }
    }
}

/// The contents of a list of totals.
pub open spec fn totals_view(totals: Seq<UserScoreTotals>) -> Seq<TotalsView> {
    Seq::new(totals.len(), |i: int| totals[i]@)
}

/// How one completed game went.
#[derive(Debug, Clone, Copy, PartialEq, Eq, Structural)]
pub enum GameResult {
    Win,
    Tie,
    Loss,
}

/// One row of completed-game scores.
pub struct ScoreView {
    pub user_id: Seq<char>,
    pub score: u64,
    pub result: GameResult,
}

pub open spec fn result_of(outcome: Option<Seq<char>>) -> Option<GameResult> {
    if outcome == Some("WIN"@) {
        Some(GameResult::Win)
    } else if outcome == Some("TIE"@) {
        Some(GameResult::Tie)
    } else if outcome == Some("LOSS"@) {
        Some(GameResult::Loss)
    } else {
        None
    }
}

/// The score that a stored row holds, if it is well formed.
pub open spec fn score_row(row: Row) -> Option<ScoreView> {
    match (
        row.text_at("user_id"@),
        store::unsigned_of(row.integer_at("score"@)),
        result_of(row.text_at("outcome"@)),
    ) {
        (Some(user_id), Some(score), Some(result)) => Some(ScoreView { user_id, score, result }),
        _ => None,
    }
}

/// The totals of a user who has no game yet.
pub open spec fn no_games(user_id: Seq<char>) -> TotalsView {
    TotalsView { user_id, completed_games: 0, wins: 0, ties: 0, total_score: 0 }
}

/// `total` with one more game, where the numbers stay in range.
pub open spec fn with_game(total: TotalsView, score: u64, result: GameResult) -> Option<TotalsView> {
    let wins = total.wins + if result == GameResult::Win { 1int } else { 0 };
    let ties = total.ties + if result == GameResult::Tie { 1int } else { 0 };
    if total.completed_games + 1 <= u64::MAX && total.total_score + score <= u64::MAX && wins
        <= u64::MAX && ties <= u64::MAX {
        Some(
            TotalsView {
                user_id: total.user_id,
                completed_games: (total.completed_games + 1) as u64,
                wins: wins as u64,
                ties: ties as u64,
                total_score: (total.total_score + score) as u64,
            },
        )
    } else {
        None
    }
}

/// The place of `user_id` in a list of totals that is sorted by user.
pub open spec fn user_slot(totals: Seq<TotalsView>, user_id: Seq<char>) -> int
    decreases totals.len(),
{
    if totals.len() == 0 || !text::precedes(totals[0].user_id, user_id) {
        0
    } else {
        1 + user_slot(totals.skip(1), user_id)
    }
}

/// The list of totals after one more game.
pub open spec fn credited(totals: Seq<TotalsView>, game: ScoreView) -> Option<Seq<TotalsView>> {
    let at = user_slot(totals, game.user_id);
    if at < totals.len() && totals[at].user_id == game.user_id {
        match with_game(totals[at], game.score, game.result) {
            Some(total) => Some(totals.update(at, total)),
            None => None,
        }
    } else {
        match with_game(no_games(game.user_id), game.score, game.result) {
            Some(total) => Some(totals.insert(at, total)),
            None => None,
        }
    }
}

/// The totals of all users with a completed game, sorted by user.
pub open spec fn tally(rows: Seq<Row>) -> Option<Seq<TotalsView>>
    decreases rows.len(),
{
    if rows.len() == 0 {
        Some(Seq::empty())
    } else {
        match (tally(rows.drop_last()), score_row(rows.last())) {
            (Some(totals), Some(game)) => credited(totals, game),
            _ => None,
        }
    }
}

proof fn user_slot_step(totals: Seq<TotalsView>, at: int, user_id: Seq<char>)
    requires
        0 <= at < totals.len(),
    ensures
        user_slot(totals.skip(at), user_id) == if text::precedes(totals[at].user_id, user_id) {
            1 + user_slot(totals.skip(at + 1), user_id)
        } else {
            0
        },
{
    assert(totals.skip(at).skip(1) =~= totals.skip(at + 1));
}

fn find_user_slot(totals: &Vec<UserScoreTotals>, user_id: &str) -> (at: usize)
    ensures
        at == user_slot(totals_view(totals@), user_id@),
        at <= totals@.len(),
{
    let ghost content = totals_view(totals@);
    let mut at: usize = 0;
    assert(content.skip(0) =~= content);
    while at < totals.len()
        invariant
            at <= totals@.len(),
            content == totals_view(totals@),
            user_slot(content, user_id@) == at + user_slot(content.skip(at as int), user_id@),
        decreases totals@.len() - at,
    {
        proof {
            user_slot_step(content, at as int, user_id@);
        }
        if !text_precedes(totals[at].user_id.as_str(), user_id) {
            return at;
        }
        at = at + 1;
    }
    at
}

fn add_game(total: &UserScoreTotals, score: u64, result: GameResult) -> (added: Option<
    UserScoreTotals,
>)
    ensures
        match added {
            Some(added) => with_game(total@, score, result) == Some(added@),
            None => with_game(total@, score, result) is None,
        },
{
    let won: u64 = if result == GameResult::Win { 1 } else { 0 };
    let tied: u64 = if result == GameResult::Tie { 1 } else { 0 };
    match (
        total.completed_games.checked_add(1),
        total.total_score.checked_add(score),
        total.wins.checked_add(won),
        total.ties.checked_add(tied),
    ) {
        (Some(completed_games), Some(total_score), Some(wins), Some(ties)) => Some(
            UserScoreTotals {
                user_id: total.user_id.clone(),
                completed_games,
                wins,
                ties,
                total_score,
            },
        ),
        _ => None,
    }
}

/// Whether crediting succeeded and to what.
pub open spec fn credit_shows(
    credit: bool,
    totals: Seq<TotalsView>,
    wanted: Option<Seq<TotalsView>>,
) -> bool {
    if credit {
        wanted == Some(totals)
    } else {
        wanted is None
    }
}

fn credit_game(totals: &mut Vec<UserScoreTotals>, user_id: String, score: u64, result: GameResult) -> (
    credit: bool)
    ensures
        credit_shows(
            credit,
            totals_view(final(totals)@),
            credited(totals_view(old(totals)@), ScoreView { user_id: user_id@, score, result }),
        ),
{
    let at: usize = find_user_slot(totals, user_id.as_str());
    if at < totals.len() && same_text(totals[at].user_id.as_str(), user_id.as_str()) {
        match add_game(&totals[at], score, result) {
            Some(total) => {
                totals[at] = total;
                assert(totals_view(totals@) =~= totals_view(old(totals)@).update(
                    at as int,
                    total@,
                ));
                true
            },
            None => false,
        }
    } else {
        let none = UserScoreTotals {
            user_id,
            completed_games: 0,
            wins: 0,
            ties: 0,
            total_score: 0,
        };
        match add_game(&none, score, result) {
            Some(total) => {
                totals.insert(at, total);
                assert(totals_view(totals@) =~= totals_view(old(totals)@).insert(
                    at as int,
                    total@,
                ));
                true
            },
            None => false,
        }
    }
}

proof fn tally_stays_none(rows: Seq<Row>, upto: int)
    requires
        0 <= upto <= rows.len(),
        tally(rows.take(upto)) is None,
    ensures
        tally(rows) is None,
    decreases rows.len(),
{
    if upto < rows.len() {
        assert(rows.drop_last().take(upto) =~= rows.take(upto));
        tally_stays_none(rows.drop_last(), upto);
    } else {
        assert(rows.take(upto) =~= rows);
    }
}

fn read_result(outcome: &str) -> (result: Option<GameResult>)
    ensures
        result == result_of(Some(outcome@)),
{
    if same_text(outcome, "WIN") {
        Some(GameResult::Win)
    } else if same_text(outcome, "TIE") {
        Some(GameResult::Tie)
    } else if same_text(outcome, "LOSS") {
        Some(GameResult::Loss)
    } else {
        None
    }
}

/// The totals that a list of score rows adds up to.
pub fn tally_scores(rows: &Vec<Row>) -> (totals: Option<Vec<UserScoreTotals>>)
    ensures
        match totals {
            Some(totals) => tally(rows@) == Some(totals_view(totals@)),
            None => tally(rows@) is None,
        },
{
    let mut totals: Vec<UserScoreTotals> = Vec::new();
    assert(totals_view(totals@) =~= Seq::<TotalsView>::empty());
    let mut index: usize = 0;
    assert(rows@.take(0) =~= Seq::<Row>::empty());
    while index < rows.len()
        invariant
            index <= rows@.len(),
            tally(rows@.take(index as int)) == Some(totals_view(totals@)),
        decreases rows@.len() - index,
    {
        assert(rows@.take(index + 1).drop_last() =~= rows@.take(index as int));
        assert(rows@.take(index + 1).last() == rows@[index as int]);
        let row = &rows[index];
        let read = match (
            row.get_text("user_id"),
            unsigned(row.get_integer("score")),
            row.get_text("outcome"),
        ) {
            (Some(user_id), Some(score), Some(outcome)) => match read_result(outcome.as_str()) {
                Some(result) => Some((user_id, score, result)),
                None => None,
            },
            _ => None,
        };
        match read {
            Some((user_id, score, result)) => {
                if !credit_game(&mut totals, user_id, score, result) {
                    proof {
                        tally_stays_none(rows@, index + 1);
                    }
                    return None;
                }
            },
            None => {
                proof {
                    tally_stays_none(rows@, index + 1);
                }
                return None;
            },
        }
        index = index + 1;
    }
    assert(rows@.take(index as int) =~= rows@);
    Some(totals)
}

pub open spec fn insert_totals_op(total: TotalsView, updated_at_ms: i64) -> Op {
    Op::insert("user_score_totals"@)
        .text("user_id"@, total.user_id)
        .integer("completed_games"@, total.completed_games as int)
        .integer("wins"@, total.wins as int)
        .integer("ties"@, total.ties as int)
        .integer("total_score"@, total.total_score as int)
        .integer("updated_at_ms"@, updated_at_ms as int)
}

/// Whether the numbers of a total can be stored.
pub open spec fn storable(total: TotalsView) -> bool {
    total.completed_games <= i64::MAX && total.wins <= i64::MAX && total.ties <= i64::MAX
        && total.total_score <= i64::MAX
}

/// Write the totals from `index` on.
pub open spec fn write_totals_run(
    trace: Trace,
    totals: Seq<TotalsView>,
    updated_at_ms: i64,
    index: int,
) -> Run<(), ProjectionError>
    decreases totals.len() - index,
{
    if index >= totals.len() {
        script::done(trace, ())
    } else if !storable(totals[index]) {
        script::fail(trace, ProjectionError::Malformed)
    } else {
        script::perform(
            trace,
            insert_totals_op(totals[index], updated_at_ms),
            |trace: Trace| write_totals_run(trace, totals, updated_at_ms, index + 1),
        )
    }
}

fn write_totals<'a>(
    script: &mut Script<'a>,
    totals: &Vec<UserScoreTotals>,
    updated_at_ms: i64,
) -> (written: Result<(), Stop<'a, ProjectionError>>)
    ensures
        script::ran(written, final(script)@, |written: ()| written) == write_totals_run(
            old(script)@,
            totals_view(totals@),
            updated_at_ms,
            0,
        ),
{
    let ghost content = totals_view(totals@);
    let mut index: usize = 0;
    while index < totals.len()
        invariant
            index <= totals@.len(),
            content == totals_view(totals@),
            write_totals_run(old(script)@, content, updated_at_ms, 0) == write_totals_run(
                script@,
                content,
                updated_at_ms,
                index as int,
            ),
        decreases totals@.len() - index,
    {
        let total = &totals[index];
        assert(total@ == content[index as int]);
        let (completed_games, wins, ties, total_score): (i64, i64, i64, i64) = match (
            signed(total.completed_games),
            signed(total.wins),
            signed(total.ties),
            signed(total.total_score),
        ) {
            (Some(completed_games), Some(wins), Some(ties), Some(total_score)) => (
                completed_games,
                wins,
                ties,
                total_score,
            ),
            _ => return Err(Stop::Fail(ProjectionError::Malformed)),
        };
        script.perform(
            Statement::insert("user_score_totals")
                .text("user_id", total.user_id.as_str())
                .integer("completed_games", completed_games)
                .integer("wins", wins)
                .integer("ties", ties)
                .integer("total_score", total_score)
                .integer("updated_at_ms", updated_at_ms),
        )?;
        index = index + 1;
    }
    Ok(())
}

/// Replace every user's totals by what the completed-game scores add up to.
pub open spec fn rebuild_totals_run(trace: Trace, updated_at_ms: i64) -> Run<(), ProjectionError> {
    script::query(
        trace,
        Op::select("game_scores"@),
        |rows: Seq<Row>, trace: Trace|
            match tally(rows) {
                None => script::fail(trace, ProjectionError::Malformed),
                Some(totals) => script::perform(
                    trace,
                    Op::delete("user_score_totals"@),
                    |trace: Trace| write_totals_run(trace, totals, updated_at_ms, 0),
                ),
            },
    )
}

/// Rebuilds every user's aggregate totals exclusively from completed-game scores.
pub fn rebuild_all_user_score_totals<'a>(script: &mut Script<'a>, updated_at_ms: i64) -> (rebuilt:
    Result<(), Stop<'a, ProjectionError>>)
    ensures
        script::ran(rebuilt, final(script)@, |rebuilt: ()| rebuilt) == rebuild_totals_run(
            old(script)@,
            updated_at_ms,
        ),
{
    let rows = script.query(Statement::select("game_scores"))?;
    let totals = match tally_scores(rows) {
        Some(totals) => totals,
        None => return Err(Stop::Fail(ProjectionError::Malformed)),
    };
    script.perform(Statement::delete("user_score_totals"))?;
    write_totals(script, &totals, updated_at_ms)
}

/// Replace a game's score rows and every user's totals.
pub open spec fn rebuild_scores_run(
    trace: Trace,
    state: GameState,
    updated_at_ms: i64,
) -> Run<(), ProjectionError> {
    let game = ids::id_text_of(state.metadata.id);
    script::perform(
        trace,
        Op::delete("game_scores"@).where_text("game_id"@, game),
        |trace: Trace|
            script::chain(
                if state.status == GameStatus::Completed {
                    write_scores_run(trace, game, state, updated_at_ms, 0)
                } else {
                    script::done(trace, ())
                },
                |written: (), trace: Trace| rebuild_totals_run(trace, updated_at_ms),
            ),
    )
}

/// Whether a state has what its projections show: the final scores of a completed game.
pub open spec fn projectable(state: GameState) -> bool {
    state.status == GameStatus::Completed ==> state.scored()
}

fn rebuild_score_projections<'a>(
    script: &mut Script<'a>,
    state: &GameState,
    updated_at_ms: i64,
) -> (rebuilt: Result<(), Stop<'a, ProjectionError>>)
    requires
        projectable(*state),
    ensures
        script::ran(rebuilt, final(script)@, |rebuilt: ()| rebuilt) == rebuild_scores_run(
            old(script)@,
            *state,
            updated_at_ms,
        ),
{
    let game: String = id_text(state.metadata.id);
    script.perform(Statement::delete("game_scores").where_text("game_id", game.as_str()))?;
    if state.status == GameStatus::Completed {
        write_scores(script, game.as_str(), state, updated_at_ms)?;
    }
    rebuild_all_user_score_totals(script, updated_at_ms)
}

pub open spec fn checkpoint_id(game: Seq<char>) -> Seq<char> {
    "game-summary:"@ + game
}

pub open spec fn checkpoint_op(game: Seq<char>, revision: u64, updated_at_ms: i64) -> Op {
    Op::upsert("projection_checkpoints"@)
        .where_text("projection_id"@, checkpoint_id(game))
        .text("projection_id"@, checkpoint_id(game))
        .text("game_id"@, game)
        .integer("revision"@, revision as int)
        .integer("updated_at_ms"@, updated_at_ms as int)
}

/// Replace all projections of a game by what its state and events show.
pub open spec fn rebuild_game_run(
    trace: Trace,
    state: GameState,
    events: Seq<&GameEvent>,
    updated_at_ms: i64,
) -> Run<(), ProjectionError> {
    let game = ids::id_text_of(state.metadata.id);
    script::perform(
        trace,
        Op::delete("move_history"@).where_text("game_id"@, game),
        |trace: Trace|
            if state.revision < events.len() {
                script::fail(trace, ProjectionError::Revision)
            } else {
                script::chain(
                    write_history_run(
                        trace,
                        game,
                        (state.revision - events.len()) as u64,
                        events,
                        updated_at_ms,
                        0,
                    ),
                    |written: (), trace: Trace|
                        rebuild_rest_run(trace, state, events, updated_at_ms),
                )
            },
    )
}

pub open spec fn rebuild_rest_run(
    trace: Trace,
    state: GameState,
    events: Seq<&GameEvent>,
    updated_at_ms: i64,
) -> Run<(), ProjectionError> {
    let game = ids::id_text_of(state.metadata.id);
    script::chain(
        write_summary_run(trace, game, state, events, updated_at_ms),
        |written: (), trace: Trace|
            script::chain(
                rebuild_scores_run(trace, state, updated_at_ms),
                |rebuilt: (), trace: Trace|
                    if state.revision > i64::MAX {
                        script::fail(trace, ProjectionError::Revision)
                    } else {
                        script::perform(
                            trace,
                            checkpoint_op(game, state.revision, updated_at_ms),
                            |trace: Trace| script::done(trace, ()),
                        )
                    },
            ),
    )
}

/// Rebuilds a game's projection rows from its canonical state and journal events.
///
/// Prior rows are removed and written again, then the checkpoint advances to the canonical
/// revision. The caller runs this inside one transaction.
pub fn rebuild_game_projections<'a>(
    script: &mut Script<'a>,
    state: &GameState,
    events: &Vec<&'a GameEvent>,
    updated_at_ms: i64,
) -> (rebuilt: Result<(), Stop<'a, ProjectionError>>)
    requires
        projectable(*state),
    ensures
        script::ran(rebuilt, final(script)@, |rebuilt: ()| rebuilt) == rebuild_game_run(
            old(script)@,
            *state,
            events@,
            updated_at_ms,
        ),
{
    let game: String = id_text(state.metadata.id);
    script.perform(Statement::delete("move_history").where_text("game_id", game.as_str()))?;
    let count: u64 = events.len() as u64;
    if state.revision < count {
        return Err(Stop::Fail(ProjectionError::Revision));
    }
    write_history(script, game.as_str(), state.revision - count, events, updated_at_ms)?;
    write_summary(script, game.as_str(), state, events, updated_at_ms)?;
    rebuild_score_projections(script, state, updated_at_ms)?;
    let revision: i64 = match signed(state.revision) {
        Some(revision) => revision,
        None => return Err(Stop::Fail(ProjectionError::Revision)),
    };
    let checkpoint = joined("game-summary:", game.as_str());
    script.perform(
        Statement::upsert("projection_checkpoints")
            .where_text("projection_id", checkpoint.as_str())
            .text("projection_id", checkpoint.as_str())
            .text("game_id", game.as_str())
            .integer("revision", revision)
            .integer("updated_at_ms", updated_at_ms),
    )
}

/// Replace all projections of a game, unless its state lacks what they show.
pub open spec fn project_game_run(
    trace: Trace,
    state: GameState,
    events: Seq<&GameEvent>,
    updated_at_ms: i64,
) -> Run<(), ProjectionError> {
    if projectable(state) {
        rebuild_game_run(trace, state, events, updated_at_ms)
    } else {
        script::fail(trace, ProjectionError::Malformed)
    }
}

/// Rebuilds the projections of a state that the rules engine has handed over.
pub fn project_game<'a>(
    script: &mut Script<'a>,
    state: &GameState,
    events: &Vec<&'a GameEvent>,
    updated_at_ms: i64,
) -> (projected: Result<(), Stop<'a, ProjectionError>>)
    ensures
        script::ran(projected, final(script)@, |projected: ()| projected) == project_game_run(
            old(script)@,
            *state,
            events@,
            updated_at_ms,
        ),
{
    if state.status == GameStatus::Completed && !state.is_scored() {
        return Err(Stop::Fail(ProjectionError::Malformed));
    }
    rebuild_game_projections(script, state, events, updated_at_ms)
}

/// The totals in one stored row.
pub open spec fn totals_row(row: Row) -> Option<TotalsView> {
    match (
        row.text_at("user_id"@),
        store::unsigned_of(row.integer_at("completed_games"@)),
        store::unsigned_of(row.integer_at("wins"@)),
        store::unsigned_of(row.integer_at("ties"@)),
        store::unsigned_of(row.integer_at("total_score"@)),
    ) {
        (
            Some(user_id),
            Some(completed_games),
            Some(wins),
            Some(ties),
            Some(total_score),
        ) => Some(TotalsView { user_id, completed_games, wins, ties, total_score }),
        _ => None,
    }
}

pub open spec fn opt_totals_view(totals: Option<UserScoreTotals>) -> Option<TotalsView> {
    match totals {
        Some(totals) => Some(totals@),
        None => None,
    }
}

fn read_totals(row: &Row) -> (totals: Option<UserScoreTotals>)
    ensures
        opt_totals_view(totals) == totals_row(*row),
{
    match (
        row.get_text("user_id"),
        unsigned(row.get_integer("completed_games")),
        unsigned(row.get_integer("wins")),
        unsigned(row.get_integer("ties")),
        unsigned(row.get_integer("total_score")),
    ) {
        (
            Some(user_id),
            Some(completed_games),
            Some(wins),
            Some(ties),
            Some(total_score),
        ) => Some(UserScoreTotals { user_id, completed_games, wins, ties, total_score }),
        _ => None,
    }
}

/// Load one user's totals.
pub open spec fn user_score_totals_run(trace: Trace, user_id: Seq<char>) -> Run<
    Option<TotalsView>,
    ProjectionError,
> {
    script::query(
        trace,
        Op::select("user_score_totals"@).where_text("user_id"@, user_id),
        |rows: Seq<Row>, trace: Trace|
            if rows.len() == 0 {
                script::done(trace, None)
            } else {
                match totals_row(rows[0]) {
                    Some(totals) => script::done(trace, Some(totals)),
                    None => script::fail(trace, ProjectionError::Malformed),
                }
            },
    )
}

/// Loads the aggregate score history of one user.
pub fn user_score_totals<'a>(script: &mut Script<'a>, user_id: &str) -> (loaded: Result<
    Option<UserScoreTotals>,
    Stop<'a, ProjectionError>,
>)
    ensures
        script::ran(
            loaded,
            final(script)@,
            |totals: Option<UserScoreTotals>| opt_totals_view(totals),
        ) == user_score_totals_run(old(script)@, user_id@),
{
    let rows = script.query(
        Statement::select("user_score_totals").where_text("user_id", user_id),
    )?;
    if rows.len() == 0 {
        return Ok(None);
    }
    match read_totals(&rows[0]) {
        Some(totals) => Ok(Some(totals)),
        None => Err(Stop::Fail(ProjectionError::Malformed)),
    }
}

/// One chronological history row.
#[derive(Debug, Clone, PartialEq, Eq)]
pub struct GameHistoryEntry {
    pub revision: u64,
    pub player_user_id: Option<String>,
    pub event_kind: String,
    pub score_delta: u32,
    pub created_at_ms: i64,
}

/// The mathematical content of a [`GameHistoryEntry`].
#[verifier::ext_equal]
pub struct HistoryView {
    pub revision: u64,
    pub player_user_id: Option<Seq<char>>,
    pub event_kind: Seq<char>,
    pub score_delta: u32,
    pub created_at_ms: i64,
}

impl View for GameHistoryEntry {
    type V = HistoryView;

    open spec fn view(&self) -> HistoryView {
        HistoryView {
            revision: self.revision,
            player_user_id: text::opt_view(self.player_user_id),
            event_kind: self.event_kind@,
            score_delta: self.score_delta,
            created_at_ms: self.created_at_ms,
        }
    }
}

/// The history entry in one stored row.
pub open spec fn history_row(row: Row) -> Option<HistoryView> {
    match (
        store::unsigned_of(row.integer_at("revision"@)),
        row.text_at("event_kind"@),
        store::unsigned_of(row.integer_at("score_delta"@)),
        row.integer_at("created_at_ms"@),
    ) {
        (
            Some(revision),
            Some(event_kind),
            Some(score_delta),
            Some(created_at_ms),
        ) => if score_delta <= u32::MAX {
            Some(
                HistoryView {
                    revision,
                    player_user_id: row.text_at("player_user_id"@),
                    event_kind,
                    score_delta: score_delta as u32,
                    created_at_ms,
                },
            )
        } else {
            None
        },
        _ => None,
    }
}

fn read_history(row: &Row) -> (entry: Option<GameHistoryEntry>)
    ensures
        match entry {
            Some(entry) => history_row(*row) == Some(entry@),
            None => history_row(*row) is None,
        },
{
    match (
        unsigned(row.get_integer("revision")),
        row.get_text("event_kind"),
        unsigned(row.get_integer("score_delta")),
        row.get_integer("created_at_ms"),
    ) {
        (
            Some(revision),
            Some(event_kind),
            Some(score_delta),
            Some(created_at_ms),
        ) => if score_delta <= u32::MAX as u64 {
            Some(
                GameHistoryEntry {
                    revision,
                    player_user_id: row.get_text("player_user_id"),
                    event_kind,
                    score_delta: score_delta as u32,
                    created_at_ms,
                },
            )
        } else {
            None
        },
        _ => None,
    }
}

/// Whether every row is a well-formed history entry.
pub open spec fn history_well_formed(rows: Seq<Row>) -> bool {
    forall|i: int| 0 <= i < rows.len() ==> history_row(#[trigger] rows[i]) is Some
}

/// The contents of a list of history entries.
pub open spec fn history_view(entries: Seq<GameHistoryEntry>) -> Seq<HistoryView> {
    Seq::new(entries.len(), |i: int| entries[i]@)
}

/// Load the history of a game in revision order.
pub open spec fn game_history_run(trace: Trace, game_id: GameId) -> Run<
    Seq<HistoryView>,
    ProjectionError,
> {
    script::query(
        trace,
        Op::select("move_history"@).where_text("game_id"@, ids::id_text_of(game_id)).sort(
            "revision"@,
            Direction::Ascending,
        ),
        |rows: Seq<Row>, trace: Trace|
            if history_well_formed(rows) {
                script::done(trace, Seq::new(rows.len(), |i: int| history_row(rows[i])->0))
            } else {
                script::fail(trace, ProjectionError::Malformed)
            },
    )
}

/// Loads the chronological move and score history of one game.
pub fn game_history<'a>(script: &mut Script<'a>, game_id: GameId) -> (loaded: Result<
    Vec<GameHistoryEntry>,
    Stop<'a, ProjectionError>,
>)
    ensures
        script::ran(
            loaded,
            final(script)@,
            |entries: Vec<GameHistoryEntry>| history_view(entries@),
        ) == game_history_run(old(script)@, game_id),
{
    let rows = script.query(
        Statement::select("move_history").where_text("game_id", id_text(game_id).as_str()).sort(
            "revision",
            Direction::Ascending,
        ),
    )?;
    let ghost after = script@;
    let mut entries: Vec<GameHistoryEntry> = Vec::new();
    let mut index: usize = 0;
    while index < rows.len()
        invariant
            index <= rows@.len(),
            entries@.len() == index,
            script@ == after,
            forall|i: int|
                0 <= i < index ==> history_row(rows@[i]) == Some((#[trigger] entries@[i])@),
            game_history_run(old(script)@, game_id) == if history_well_formed(rows@) {
                script::done(after, Seq::new(rows@.len(), |i: int| history_row(rows@[i])->0))
            } else {
                script::fail(after, ProjectionError::Malformed)
            },
        decreases rows@.len() - index,
    {
        match read_history(&rows[index]) {
            Some(entry) => {
                entries.push(entry);
            },
            None => {
                assert(history_row(rows@[index as int]) is None);
                return Err(Stop::Fail(ProjectionError::Malformed));
            },
        }
        index = index + 1;
    }
    assert(history_well_formed(rows@)) by {
        assert forall|i: int| 0 <= i < rows@.len() implies history_row(
            #[trigger] rows@[i],
        ) is Some by {
            assert(history_row(rows@[i]) == Some(entries@[i]@));
        }
    }
    assert(history_view(entries@) =~= Seq::new(rows@.len(), |i: int| history_row(rows@[i])->0));
    Ok(entries)
}

/// Return the projected revision of a game.
pub open spec fn projected_revision_run(trace: Trace, game_id: GameId) -> Run<
    Option<u64>,
    ProjectionError,
> {
    script::query(
        trace,
        Op::select("projection_checkpoints"@).where_text(
            "projection_id"@,
            checkpoint_id(ids::id_text_of(game_id)),
        ),
        |rows: Seq<Row>, trace: Trace|
            if rows.len() == 0 {
                script::done(trace, None)
            } else {
                match store::unsigned_of(rows[0].integer_at("revision"@)) {
                    Some(revision) => script::done(trace, Some(revision)),
                    None => script::fail(trace, ProjectionError::Revision),
                }
            },
    )
}

/// Returns the projected revision of one game.
pub fn projected_revision<'a>(script: &mut Script<'a>, game_id: GameId) -> (revision: Result<
    Option<u64>,
    Stop<'a, ProjectionError>,
>)
    ensures
        script::ran(revision, final(script)@, |revision: Option<u64>| revision)
            == projected_revision_run(old(script)@, game_id),
{
    let rows = script.query(
        Statement::select("projection_checkpoints").where_text(
            "projection_id",
            joined("game-summary:", id_text(game_id).as_str()).as_str(),
        ),
    )?;
    if rows.len() == 0 {
        return Ok(None);
    }
    match unsigned(rows[0].get_integer("revision")) {
        Some(revision) => Ok(Some(revision)),
        None => Err(Stop::Fail(ProjectionError::Revision)),
    }
}

} // verus!
