//! Private move planning, which no game rule depends on.
use crate::game::{GameId, PlayerId};
use crate::game_service::{self, player_for_user, GameServiceError};
use crate::ids::{self, id_text};
use crate::script::{self, Run, Script, Stop, Trace};
use crate::store::{Op, Row, Statement, Value};
use crate::text::{self, colon_joined};
use vstd::prelude::*;

verus! {

/// Move-plan failure.
#[derive(Debug, Clone, PartialEq, Eq)]
pub enum MovePlanError {
    /// The stored plan lacks its payload or revision.
    Malformed,
    Game(GameServiceError),
}

impl MovePlanError {
    /// The error in words; an outside error is told in its own.
    pub open spec fn message_of(self) -> Seq<char> {
        match self {
            MovePlanError::Malformed => "stored move plan is malformed"@,
            MovePlanError::Game(error) => error.message_of(),
        }
    }

    pub fn message(self) -> (message: String)
        ensures
            message@ == self.message_of(),
    {
        match self {
            MovePlanError::Malformed => "stored move plan is malformed".to_owned(),
            MovePlanError::Game(error) => error.message(),
        }
    }
}

fn service_stop<'a>(stop: Stop<'a, GameServiceError>) -> (wrapped: Stop<'a, MovePlanError>)
    ensures
        wrapped == (match stop {
            Stop::Wait(request) => Stop::Wait(request),
            Stop::Failed(number) => Stop::Failed(number),
            Stop::Mismatch(number) => Stop::Mismatch(number),
            Stop::Fail(error) => Stop::Fail(MovePlanError::Game(error)),
        }),
{
    match stop {
        Stop::Wait(request) => Stop::Wait(request),
        Stop::Failed(number) => Stop::Failed(number),
        Stop::Mismatch(number) => Stop::Mismatch(number),
        Stop::Fail(error) => Stop::Fail(MovePlanError::Game(error)),
    }
}

/// Check membership and go on.
pub open spec fn member_run<T>(
    trace: Trace,
    game_id: GameId,
    user_id: Seq<char>,
    rest: spec_fn(Trace) -> Run<T, MovePlanError>,
) -> Run<T, MovePlanError> {
    script::chain(
        script::lift(
            game_service::player_for_user_run(trace, game_id, user_id),
            |error: GameServiceError| MovePlanError::Game(error),
        ),
        |player: PlayerId, trace: Trace| rest(trace),
    )
}

fn check_member<'a>(script: &mut Script<'a>, game_id: GameId, user_id: &str) -> (checked: Result<
    (),
    Stop<'a, MovePlanError>,
>)
    ensures
        script::ran(checked, final(script)@, |checked: ()| checked) == member_run(
            old(script)@,
            game_id,
            user_id@,
            |trace: Trace| script::done(trace, ()),
        ),
{
    match player_for_user(script, game_id, user_id) {
        Ok(_) => Ok(()),
        Err(stop) => Err(service_stop(stop)),
    }
}

/// The key of a member's plan in a game.
pub open spec fn plan_id_of(game_id: GameId, user_id: Seq<char>) -> Seq<char> {
    text::colon_pair(ids::id_text_of(game_id), user_id)
}

fn plan_id(game_id: GameId, user_id: &str) -> (id: String)
    ensures
        id@ == plan_id_of(game_id, user_id@),
{
    colon_joined(id_text(game_id).as_str(), user_id)
}

/// Load a member's plan.
pub open spec fn load_plan_run(trace: Trace, game_id: GameId, user_id: Seq<char>) -> Run<
    Option<(Seq<char>, u64)>,
    MovePlanError,
> {
    member_run(
        trace,
        game_id,
        user_id,
        |trace: Trace|
            script::query(
                trace,
                Op::select("move_plans"@).where_text("move_plan_id"@, plan_id_of(game_id, user_id)),
                |rows: Seq<Row>, trace: Trace|
                    if rows.len() == 0 {
                        script::done(trace, None)
                    } else {
                        match (
                            rows[0].text_at("payload"@),
                            rows[0].unsigned_at("board_revision"@),
                        ) {
                            (Some(payload), Some(revision)) => script::done(
                                trace,
                                Some((payload, revision)),
                            ),
                            _ => script::fail(trace, MovePlanError::Malformed),
                        }
                    },
            ),
    )
}

/// Loads an authorized player's opaque private planning payload and its source revision.
pub fn load_move_plan<'a>(script: &mut Script<'a>, game_id: GameId, user_id: &str) -> (plan: Result<
    Option<(String, u64)>,
    Stop<'a, MovePlanError>,
>)
    ensures
        script::ran(
            plan,
            final(script)@,
            |plan: Option<(String, u64)>|
                match plan {
                    Some((payload, revision)) => Some((payload@, revision)),
                    None => None,
                },
        ) == load_plan_run(old(script)@, game_id, user_id@),
{
    check_member(script, game_id, user_id)?;
    let rows = script.query(
        Statement::select("move_plans").where_text(
            "move_plan_id",
            plan_id(game_id, user_id).as_str(),
        ),
    )?;
    if rows.len() == 0 {
        return Ok(None);
    }
    match (rows[0].get_text("payload"), rows[0].get_unsigned("board_revision")) {
        (Some(payload), Some(revision)) => Ok(Some((payload, revision))),
        _ => Err(Stop::Fail(MovePlanError::Malformed)),
    }
}

pub open spec fn upsert_plan_op(
    game_id: GameId,
    user_id: Seq<char>,
    payload: Seq<char>,
    board_revision: u64,
    updated_at_ms: i64,
) -> Op {
    Op::upsert("move_plans"@)
        .where_text("move_plan_id"@, plan_id_of(game_id, user_id))
        .text("move_plan_id"@, plan_id_of(game_id, user_id))
        .text("game_id"@, ids::id_text_of(game_id))
        .text("user_id"@, user_id)
        .text("payload"@, payload)
        .integer("board_revision"@, board_revision as int)
        .integer("updated_at_ms"@, updated_at_ms as int)
}

/// Saves an authorized player's opaque private planning payload.
pub fn save_move_plan<'a>(
    script: &mut Script<'a>,
    game_id: GameId,
    user_id: &str,
    payload: &str,
    board_revision: u64,
    updated_at_ms: i64,
) -> (saved: Result<(), Stop<'a, MovePlanError>>)
    ensures
        script::ran(saved, final(script)@, |saved: ()| saved) == member_run(
            old(script)@,
            game_id,
            user_id@,
            |trace: Trace|
                script::perform(
                    trace,
                    upsert_plan_op(game_id, user_id@, payload@, board_revision, updated_at_ms),
                    |trace: Trace| script::done(trace, ()),
                ),
        ),
{
    check_member(script, game_id, user_id)?;
    script.perform(
        Statement::upsert("move_plans")
            .where_text("move_plan_id", plan_id(game_id, user_id).as_str())
            .text("move_plan_id", plan_id(game_id, user_id).as_str())
            .text("game_id", id_text(game_id).as_str())
            .text("user_id", user_id)
            .text("payload", payload)
            .value("board_revision", Value::Unsigned(board_revision))
            .integer("updated_at_ms", updated_at_ms),
    )
}

/// Clears an authorized player's private plan.
pub fn clear_move_plan<'a>(script: &mut Script<'a>, game_id: GameId, user_id: &str) -> (cleared:
    Result<(), Stop<'a, MovePlanError>>)
    ensures
        script::ran(cleared, final(script)@, |cleared: ()| cleared) == member_run(
            old(script)@,
            game_id,
            user_id@,
            |trace: Trace|
                script::perform(
                    trace,
                    Op::delete("move_plans"@).where_text(
                        "move_plan_id"@,
                        plan_id_of(game_id, user_id@),
                    ),
                    |trace: Trace| script::done(trace, ()),
                ),
        ),
{
    check_member(script, game_id, user_id)?;
    script.perform(
        Statement::delete("move_plans").where_text(
            "move_plan_id",
            plan_id(game_id, user_id).as_str(),
        ),
    )
}

} // verus!
