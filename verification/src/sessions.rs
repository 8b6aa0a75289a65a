//! When a session stands for its user.
use crate::game::{self, timestamp_ms, Span, Timestamp};
use crate::store::{self, first_integer, first_text, Row, Value};
use crate::text;
use vstd::prelude::*;

verus! {

/// The user of a stored session that is neither revoked nor expired.
pub open spec fn user_of_session(rows: Seq<Row>, now_ms: i64) -> Option<Seq<char>> {
    if rows.len() > 0 && rows[0].column("revoked_at_ms"@) == Some(Value::Null) && (
    store::first_integer_of(rows, "expires_at_ms"@) matches Some(expires) && expires > now_ms) {
        store::first_text_of(rows, "user_id"@)
    } else {
        None
    }
}

/// Finds the user of the session that a store shows, unless it is revoked or expired.
pub fn session_user(rows: &Vec<Row>, now_ms: i64) -> (user: Option<String>)
    ensures
        text::opt_view(user) == user_of_session(rows@, now_ms),
{
    if rows.len() == 0 {
        return None;
    }
    match (rows[0].get("revoked_at_ms"), first_integer(rows, "expires_at_ms")) {
        (Some(Value::Null), Some(expires)) => if expires > now_ms {
            first_text(rows, "user_id")
        } else {
            None
        },
        _ => None,
    }
}

/// When a session that is issued now begins and ends, in milliseconds.
pub fn session_times(now: Timestamp, lifetime: Span) -> (times: Option<(i64, i64)>)
    requires
        lifetime.valid(),
    ensures
        times == (match (game::millis_at(now), game::moment_after(now, lifetime)) {
            (Some(begins), Some(end)) => match game::millis_at(end) {
                Some(ends) => Some((begins, ends)),
                None => None,
            },
            _ => None,
        }),
{
    match (timestamp_ms(now), now.plus(lifetime)) {
        (Some(begins), Some(end)) => match timestamp_ms(end) {
            Some(ends) => Some((begins, ends)),
            None => None,
        },
        _ => None,
    }
}

} // verus!
