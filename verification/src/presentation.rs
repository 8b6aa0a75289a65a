//! Authenticated presentation: the signed-in dashboard and the page of one game.
use crate::components::{self, game_view, GameView, SeenGame};
use crate::crypto::{self, token_hash};
use crate::dashboard::{
    self, dashboard_projection, DashboardProjection, PendingView, SummaryView,
};
use crate::game::{
    BoardTile, GameEvent, GameId, GameState, GameStatus, PlayerId, ReplayError, RuleProfile,
    Timestamp,
};
use crate::game_service::{self, player_for_user, GameServiceError};
use crate::ids::{self, id_text, read_id};
use crate::journal::{self, canonical_events, load_events, recover_game, EventRecord, JournalError};
use crate::move_history::{
    self, final_score_adjustments, move_history_view, HistoryRow, MoveHistoryError,
    MoveHistoryView, NamesView, PlayerNames,
};
use crate::order::squares_keys;
use crate::profiles::{self, load_profile, profile_image_hash, ProfileError, ProfileView};
use crate::projections::{
    self, user_score_totals, ProjectionError, TotalsView, UserScoreTotals,
};
use crate::rack_preferences::{self, load_rack_order, RackPreferenceError};
use crate::script::{self, Ask, Outcome, Reply, Request, Run, Script, Stop, Trace};
use crate::store::{self, first_text, Op, Row, Statement};
use crate::text::{self, decimal_text, joined, same_text};
use std::collections::{BTreeMap, BTreeSet};
use vstd::prelude::*;

verus! {

/// The session cookie.
pub const SESSION_COOKIE_NAME: &'static str = "wwmtf-session";

/// The cookie of the renderer's cross-site request protection.
pub const CSRF_COOKIE_NAME: &'static str = "wwmtf-csrf";

/// The header of the renderer's cross-site request protection.
pub const CSRF_HEADER_NAME: &'static str = "x-hyperchad-csrf-token";

/// The browser-binding cookie, for the short authorization callback only.
pub const OIDC_BINDING_COOKIE_NAME: &'static str = "wwmtf-oidc-binding";

/// Presentation failure.
#[derive(Debug, Clone, PartialEq, Eq)]
pub enum PresentationError {
    Unauthenticated,
    Malformed,
    UnsupportedRules,
    UnsupportedDictionary,
    UnknownGame,
    Forbidden,
    Game(GameServiceError),
    Journal(JournalError),
    Projection(ProjectionError),
    Profile(ProfileError),
    MoveHistory(MoveHistoryError),
    RackPreference(RackPreferenceError),
    /// The final scoring cannot be replayed.
    Replay(ReplayError),
}

impl PresentationError {
    /// The error in words, where it is not for the rules engine to choose them.
    pub open spec fn message_of(self) -> Option<Seq<char>> {
        match self {
            PresentationError::Unauthenticated => Some("sign in to continue"@),
            PresentationError::Malformed => Some("stored presentation data is malformed"@),
            PresentationError::UnsupportedRules => Some("this game uses an unsupported rules profile"@),
            PresentationError::UnsupportedDictionary => Some("this game uses an unsupported dictionary"@),
            PresentationError::UnknownGame => Some("this game is unavailable"@),
            PresentationError::Forbidden => Some("you are not authorized to view this game"@),
            PresentationError::Game(error) => Some(error.message_of()),
            PresentationError::Journal(error) => Some(error.message_of()),
            PresentationError::Projection(error) => Some(error.message_of()),
            PresentationError::Profile(error) => Some(error.message_of()),
            PresentationError::MoveHistory(error) => error.message_of(),
            PresentationError::RackPreference(error) => Some(error.message_of()),
            PresentationError::Replay(error) => error.message_of(),
        }
    }

    pub fn message(self) -> (message: Option<String>)
        ensures
            text::opt_view(message) == self.message_of(),
    {
        match self {
            PresentationError::Unauthenticated => Some("sign in to continue".to_owned()),
            PresentationError::Malformed => Some("stored presentation data is malformed".to_owned()),
            PresentationError::UnsupportedRules => Some("this game uses an unsupported rules profile".to_owned()),
            PresentationError::UnsupportedDictionary => Some("this game uses an unsupported dictionary".to_owned()),
            PresentationError::UnknownGame => Some("this game is unavailable".to_owned()),
            PresentationError::Forbidden => Some("you are not authorized to view this game".to_owned()),
            PresentationError::Game(error) => Some(error.message()),
            PresentationError::Journal(error) => Some(error.message()),
            PresentationError::Projection(error) => Some(error.message()),
            PresentationError::Profile(error) => Some(error.message()),
            PresentationError::MoveHistory(error) => error.message(),
            PresentationError::RackPreference(error) => Some(error.message()),
            PresentationError::Replay(error) => error.message(),
        }
    }
}

fn journal_stop<'a>(stop: Stop<'a, JournalError>) -> (wrapped: Stop<'a, PresentationError>)
    ensures
        wrapped == (match stop {
            Stop::Wait(request) => Stop::Wait(request),
            Stop::Failed(number) => Stop::Failed(number),
            Stop::Mismatch(number) => Stop::Mismatch(number),
            Stop::Fail(error) => Stop::Fail(PresentationError::Journal(error)),
        }),
{
    match stop {
        Stop::Wait(request) => Stop::Wait(request),
        Stop::Failed(number) => Stop::Failed(number),
        Stop::Mismatch(number) => Stop::Mismatch(number),
        Stop::Fail(error) => Stop::Fail(PresentationError::Journal(error)),
    }
}

fn projection_stop<'a>(stop: Stop<'a, ProjectionError>) -> (wrapped: Stop<'a, PresentationError>)
    ensures
        wrapped == (match stop {
            Stop::Wait(request) => Stop::Wait(request),
            Stop::Failed(number) => Stop::Failed(number),
            Stop::Mismatch(number) => Stop::Mismatch(number),
            Stop::Fail(error) => Stop::Fail(PresentationError::Projection(error)),
        }),
{
    match stop {
        Stop::Wait(request) => Stop::Wait(request),
        Stop::Failed(number) => Stop::Failed(number),
        Stop::Mismatch(number) => Stop::Mismatch(number),
        Stop::Fail(error) => Stop::Fail(PresentationError::Projection(error)),
    }
}

fn profile_stop<'a>(stop: Stop<'a, ProfileError>) -> (wrapped: Stop<'a, PresentationError>)
    ensures
        wrapped == (match stop {
            Stop::Wait(request) => Stop::Wait(request),
            Stop::Failed(number) => Stop::Failed(number),
            Stop::Mismatch(number) => Stop::Mismatch(number),
            Stop::Fail(error) => Stop::Fail(PresentationError::Profile(error)),
        }),
{
    match stop {
        Stop::Wait(request) => Stop::Wait(request),
        Stop::Failed(number) => Stop::Failed(number),
        Stop::Mismatch(number) => Stop::Mismatch(number),
        Stop::Fail(error) => Stop::Fail(PresentationError::Profile(error)),
    }
}

fn history_stop<'a>(stop: Stop<'a, MoveHistoryError>) -> (wrapped: Stop<'a, PresentationError>)
    ensures
        wrapped == (match stop {
            Stop::Wait(request) => Stop::Wait(request),
            Stop::Failed(number) => Stop::Failed(number),
            Stop::Mismatch(number) => Stop::Mismatch(number),
            Stop::Fail(error) => Stop::Fail(PresentationError::MoveHistory(error)),
        }),
{
    match stop {
        Stop::Wait(request) => Stop::Wait(request),
        Stop::Failed(number) => Stop::Failed(number),
        Stop::Mismatch(number) => Stop::Mismatch(number),
        Stop::Fail(error) => Stop::Fail(PresentationError::MoveHistory(error)),
    }
}

fn adjustment_stop<'a>(stop: Stop<'a, ReplayError>) -> (wrapped: Stop<'a, PresentationError>)
    ensures
        wrapped == (match stop {
            Stop::Wait(request) => Stop::Wait(request),
            Stop::Failed(number) => Stop::Failed(number),
            Stop::Mismatch(number) => Stop::Mismatch(number),
            Stop::Fail(error) => Stop::Fail(PresentationError::Replay(error)),
        }),
{
    match stop {
        Stop::Wait(request) => Stop::Wait(request),
        Stop::Failed(number) => Stop::Failed(number),
        Stop::Mismatch(number) => Stop::Mismatch(number),
        Stop::Fail(error) => Stop::Fail(PresentationError::Replay(error)),
    }
}

fn rack_stop<'a>(stop: Stop<'a, RackPreferenceError>) -> (wrapped: Stop<'a, PresentationError>)
    ensures
        wrapped == (match stop {
            Stop::Wait(request) => Stop::Wait(request),
            Stop::Failed(number) => Stop::Failed(number),
            Stop::Mismatch(number) => Stop::Mismatch(number),
            Stop::Fail(error) => Stop::Fail(PresentationError::RackPreference(error)),
        }),
{
    match stop {
        Stop::Wait(request) => Stop::Wait(request),
        Stop::Failed(number) => Stop::Failed(number),
        Stop::Mismatch(number) => Stop::Mismatch(number),
        Stop::Fail(error) => Stop::Fail(PresentationError::RackPreference(error)),
    }
}

/// How a failed seat lookup shows: whoever is not a member may not see the game.
pub open spec fn seat_error(error: GameServiceError) -> PresentationError {
    match error {
        GameServiceError::Unauthorized => PresentationError::Forbidden,
        GameServiceError::MalformedIdentity => PresentationError::Forbidden,
        _ => PresentationError::Game(error),
    }
}

fn seat_stop<'a>(stop: Stop<'a, GameServiceError>) -> (wrapped: Stop<'a, PresentationError>)
    ensures
        wrapped == (match stop {
            Stop::Wait(request) => Stop::Wait(request),
            Stop::Failed(number) => Stop::Failed(number),
            Stop::Mismatch(number) => Stop::Mismatch(number),
            Stop::Fail(error) => Stop::Fail(seat_error(error)),
        }),
{
    match stop {
        Stop::Wait(request) => Stop::Wait(request),
        Stop::Failed(number) => Stop::Failed(number),
        Stop::Mismatch(number) => Stop::Mismatch(number),
        Stop::Fail(GameServiceError::Unauthorized) => Stop::Fail(PresentationError::Forbidden),
        Stop::Fail(GameServiceError::MalformedIdentity) => Stop::Fail(PresentationError::Forbidden),
        Stop::Fail(error) => Stop::Fail(PresentationError::Game(error)),
    }
}

/// The value of the first cookie with this name.
pub open spec fn cookie_of(cookies: Seq<(String, String)>, name: Seq<char>) -> Option<Seq<char>>
    decreases cookies.len(),
{
    if cookies.len() == 0 {
        None
    } else if cookies[0].0@ == name {
        Some(cookies[0].1@)
    } else {
        cookie_of(cookies.skip(1), name)
    }
}

/// Finds a cookie.
pub fn cookie<'c>(cookies: &'c Vec<(String, String)>, name: &str) -> (found: Option<&'c String>)
    ensures
        text::opt_ref_view(found) == cookie_of(cookies@, name@),
{
    let mut at: usize = 0;
    assert(cookies@.skip(0) =~= cookies@);
    while at < cookies.len()
        invariant
            at <= cookies@.len(),
            cookie_of(cookies@, name@) == cookie_of(cookies@.skip(at as int), name@),
        decreases cookies@.len() - at,
    {
        assert(cookies@.skip(at as int).skip(1) =~= cookies@.skip(at + 1));
        assert(cookies@.skip(at as int)[0] == cookies@[at as int]);
        if same_text(cookies[at].0.as_str(), name) {
            return Some(&cookies[at].1);
        }
        at = at + 1;
    }
    None
}

/// Find the signed-in user of a session cookie.
pub open spec fn authenticated_user_run(
    trace: Trace,
    session: Option<Seq<char>>,
    now: Timestamp,
) -> Run<Seq<char>, PresentationError> {
    match session {
        None => script::fail(trace, PresentationError::Unauthenticated),
        Some(token) => script::resolve_session(
            trace,
            token,
            now,
            |user: Option<Seq<char>>, trace: Trace|
                match user {
                    Some(user) => script::done(trace, user),
                    None => script::fail(trace, PresentationError::Unauthenticated),
                },
        ),
    }
}

/// Resolves the opaque session cookie to a user.
pub fn authenticated_user<'a>(
    script: &mut Script<'a>,
    cookies: &Vec<(String, String)>,
    now: Timestamp,
) -> (user: Result<&'a String, Stop<'a, PresentationError>>)
    ensures
        script::ran(user, final(script)@, |user: &'a String| user@) == authenticated_user_run(
            old(script)@,
            cookie_of(cookies@, SESSION_COOKIE_NAME@),
            now,
        ),
{
    let token = match cookie(cookies, SESSION_COOKIE_NAME) {
        Some(token) => token,
        None => return Err(Stop::Fail(PresentationError::Unauthenticated)),
    };
    match script.resolve_session(token.as_str(), now)? {
        Some(user) => Ok(user),
        None => Err(Stop::Fail(PresentationError::Unauthenticated)),
    }
}

/// Under which reason a request that has no user is counted.
pub fn session_failure(cookies: &Vec<(String, String)>) -> (reason: &'static str)
    ensures
        reason@ == (if cookie_of(cookies@, SESSION_COOKIE_NAME@) is None {
            "missing_session"@
        } else {
            "invalid_session"@
        }),
{
    match cookie(cookies, SESSION_COOKIE_NAME) {
        None => "missing_session",
        Some(_) => "invalid_session",
    }
}

/// What binds a live connection to its session: a digest, never the session itself.
pub fn session_identity_binding(opaque_session: &str) -> (binding: String)
    ensures
        binding@ == "session:"@ + crypto::token_hash_of(opaque_session@),
{
    joined("session:", token_hash(opaque_session).as_str())
}

/// Signed-in dashboard data.
#[derive(Debug, Clone, PartialEq, Eq)]
pub struct AuthenticatedDashboard {
    pub user_id: String,
    pub username: String,
    pub display_name: String,
    pub avatar_url: Option<String>,
    pub projection: DashboardProjection,
    pub score_totals: Option<UserScoreTotals>,
}

/// The mathematical content of an [`AuthenticatedDashboard`].
#[verifier::ext_equal]
pub struct SignedInView {
    pub user_id: Seq<char>,
    pub username: Seq<char>,
    pub display_name: Seq<char>,
    pub avatar_url: Option<Seq<char>>,
    pub pending: Seq<PendingView>,
    pub games: Seq<SummaryView>,
    pub score_totals: Option<TotalsView>,
}

impl View for AuthenticatedDashboard {
    type V = SignedInView;

    open spec fn view(&self) -> SignedInView {
        SignedInView {
            user_id: self.user_id@,
            username: self.username@,
            display_name: self.display_name@,
            avatar_url: text::opt_view(self.avatar_url),
            pending: dashboard::pending_view(self.projection.pending@),
            games: dashboard::summaries_view(self.projection.games@),
            score_totals: projections::opt_totals_view(self.score_totals),
        }
    }
}

/// A user's name as shown at sign-in.
pub open spec fn username_run(trace: Trace, user_id: Seq<char>) -> Run<
    Seq<char>,
    PresentationError,
> {
    script::query(
        trace,
        Op::select("users"@).where_text("user_id"@, user_id),
        |rows: Seq<Row>, trace: Trace|
            match store::first_text_of(rows, "username_display"@) {
                Some(name) => script::done(trace, name),
                None => script::fail(trace, PresentationError::Malformed),
            },
    )
}

fn username_for_user<'a>(script: &mut Script<'a>, user_id: &str) -> (name: Result<
    String,
    Stop<'a, PresentationError>,
>)
    ensures
        script::ran(name, final(script)@, |name: String| name@) == username_run(
            old(script)@,
            user_id@,
        ),
{
    let rows = script.query(Statement::select("users").where_text("user_id", user_id))?;
    match first_text(rows, "username_display") {
        Some(name) => Ok(name),
        None => Err(Stop::Fail(PresentationError::Malformed)),
    }
}

/// The profile's display name, or the user name where there is no profile.
pub open spec fn display_name_run(trace: Trace, user_id: Seq<char>, username: Seq<char>) -> Run<
    Seq<char>,
    PresentationError,
> {
    script::reshape(
        script::lift(
            profiles::load_profile_run(trace, user_id),
            |error: ProfileError| PresentationError::Profile(error),
        ),
        |profile: Option<ProfileView>|
            match profile {
                Some(profile) => profile.display_name,
                None => username,
            },
    )
}

fn display_name_for_user<'a>(script: &mut Script<'a>, user_id: &str, username: &str) -> (name:
    Result<String, Stop<'a, PresentationError>>)
    ensures
        script::ran(name, final(script)@, |name: String| name@) == display_name_run(
            old(script)@,
            user_id@,
            username@,
        ),
{
    match load_profile(script, user_id) {
        Ok(Some(profile)) => Ok(profile.display_name),
        Ok(None) => Ok(username.to_owned()),
        Err(stop) => Err(profile_stop(stop)),
    }
}

/// The address of a stored avatar.
pub open spec fn avatar_url_of(user_id: Seq<char>, hash: Seq<char>) -> Seq<char> {
    "/profiles/"@ + user_id + "/avatar/"@ + hash
}

/// A user's avatar address, where there is an avatar.
pub open spec fn avatar_run(trace: Trace, user_id: Seq<char>) -> Run<
    Option<Seq<char>>,
    PresentationError,
> {
    script::reshape(
        script::lift(
            profiles::image_hash_run(trace, user_id),
            |error: ProfileError| PresentationError::Profile(error),
        ),
        |hash: Option<Seq<char>>|
            match hash {
                Some(hash) => Some(avatar_url_of(user_id, hash)),
                None => None,
            },
    )
}

fn avatar_for_user<'a>(script: &mut Script<'a>, user_id: &str) -> (url: Result<
    Option<String>,
    Stop<'a, PresentationError>,
>)
    ensures
        script::ran(url, final(script)@, |url: Option<String>| text::opt_view(url)) == avatar_run(
            old(script)@,
            user_id@,
        ),
{
    match profile_image_hash(script, user_id) {
        Ok(Some(hash)) => Ok(
            Some(joined("/profiles/", user_id).concat("/avatar/").concat(hash.as_str())),
        ),
        Ok(None) => Ok(None),
        Err(stop) => Err(profile_stop(stop)),
    }
}

/// Load the dashboard of the signed-in user.
pub open spec fn signed_in_run(trace: Trace, session: Option<Seq<char>>, now: Timestamp) -> Run<
    SignedInView,
    PresentationError,
> {
    script::chain(
        authenticated_user_run(trace, session, now),
        |user_id: Seq<char>, trace: Trace|
            script::chain(
                username_run(trace, user_id),
                |username: Seq<char>, trace: Trace|
                    script::chain(
                        display_name_run(trace, user_id, username),
                        |display_name: Seq<char>, trace: Trace|
                            script::chain(
                                avatar_run(trace, user_id),
                                |avatar_url: Option<Seq<char>>, trace: Trace|
                                    projected_run(
                                        trace,
                                        user_id,
                                        username,
                                        display_name,
                                        avatar_url,
                                    ),
                            ),
                    ),
            ),
    )
}

pub open spec fn projected_run(
    trace: Trace,
    user_id: Seq<char>,
    username: Seq<char>,
    display_name: Seq<char>,
    avatar_url: Option<Seq<char>>,
) -> Run<SignedInView, PresentationError> {
    script::chain(
        script::lift(
            dashboard::dashboard_run(trace, user_id),
            |error: ProjectionError| PresentationError::Projection(error),
        ),
        |projection: (Seq<PendingView>, Seq<SummaryView>), trace: Trace|
            script::reshape(
                script::lift(
                    projections::user_score_totals_run(trace, user_id),
                    |error: ProjectionError| PresentationError::Projection(error),
                ),
                |score_totals: Option<TotalsView>|
                    SignedInView {
                        user_id,
                        username,
                        display_name,
                        avatar_url,
                        pending: projection.0,
                        games: projection.1,
                        score_totals,
                    },
            ),
    )
}

/// Loads the complete dashboard of an authenticated user.
pub fn load_authenticated_dashboard<'a>(
    script: &mut Script<'a>,
    cookies: &Vec<(String, String)>,
    now: Timestamp,
) -> (loaded: Result<AuthenticatedDashboard, Stop<'a, PresentationError>>)
    ensures
        script::ran(loaded, final(script)@, |dashboard: AuthenticatedDashboard| dashboard@)
            == signed_in_run(old(script)@, cookie_of(cookies@, SESSION_COOKIE_NAME@), now),
{
    let user_id = authenticated_user(script, cookies, now)?;
    let username = username_for_user(script, user_id.as_str())?;
    let display_name = display_name_for_user(script, user_id.as_str(), username.as_str())?;
    let avatar_url = avatar_for_user(script, user_id.as_str())?;
    let projection = match dashboard_projection(script, user_id.as_str()) {
        Ok(projection) => projection,
        Err(stop) => return Err(projection_stop(stop)),
    };
    let score_totals = match user_score_totals(script, user_id.as_str()) {
        Ok(score_totals) => score_totals,
        Err(stop) => return Err(projection_stop(stop)),
    };
    Ok(
        AuthenticatedDashboard {
            user_id: user_id.clone(),
            username,
            display_name,
            avatar_url,
            projection,
            score_totals,
        },
    )
}

/// Whether an event is a play of `player` on the square with this key.
pub open spec fn plays_square(event: GameEvent, player: PlayerId, key: u16) -> bool {
    match event {
        GameEvent::TilesPlayed { player_id, placements, .. } => player_id == player
            && placements@.contains_key(key),
        _ => false,
    }
}

/// The squares on which a player has placed tiles.
pub open spec fn played_squares(events: Seq<&GameEvent>, player: PlayerId) -> Set<u16> {
    Set::new(
        |key: u16|
            exists|i: int|
                0 <= i < events.len() && plays_square(*(#[trigger] events[i]), player, key),
    )
}

fn add_squares(squares: &mut BTreeSet<u16>, placements: &BTreeMap<u16, BoardTile>)
    ensures
        final(squares)@ == old(squares)@ + placements@.dom(),
{
    broadcast use vstd::std_specs::btree::group_btree_axioms;

    let keys = squares_keys(placements);
    let mut at: usize = 0;
    assert(keys@.take(0).to_set() =~= Set::empty());
    assert(squares@ =~= old(squares)@ + keys@.take(0).to_set());
    while at < keys.len()
        invariant
            at <= keys@.len(),
            squares@ == old(squares)@ + keys@.take(at as int).to_set(),
        decreases keys@.len() - at,
    {
        let key: u16 = keys[at];
        squares.insert(key);
        let ghost less = keys@.take(at as int);
        let ghost more = keys@.take(at + 1);
        assert(more =~= less.push(key));
        assert forall|x: u16| more.to_set().contains(x) <==> less.to_set().insert(key).contains(
            x,
        ) by {
            if less.contains(x) {
                let i = choose|i: int| 0 <= i < less.len() && less[i] == x;
                assert(more[i] == x);
            }
            if x == key {
                assert(more[at as int] == x);
            }
            if more.contains(x) && x != key {
                let i = choose|i: int| 0 <= i < more.len() && more[i] == x;
                assert(less[i] == x);
            }
        }
        assert(squares@ =~= old(squares)@ + more.to_set());
        at = at + 1;
    }
    assert(keys@.take(at as int) =~= keys@);
}

/// The keys of the squares on which a player has placed tiles.
pub fn player_play_coordinates(events: &Vec<&GameEvent>, player: PlayerId) -> (squares: BTreeSet<
    u16,
>)
    ensures
        squares@ == played_squares(events@, player),
{
    let mut squares: BTreeSet<u16> = BTreeSet::new();
    let mut at: usize = 0;
    assert(squares@ =~= played_squares(events@.take(0), player));
    while at < events.len()
        invariant
            at <= events@.len(),
            squares@ == played_squares(events@.take(at as int), player),
        decreases events@.len() - at,
    {
        let ghost before = squares@;
        let ghost less = events@.take(at as int);
        let ghost more = events@.take(at + 1);
        if let GameEvent::TilesPlayed { player_id, placements, .. } = events[at] {
            if *player_id == player {
                add_squares(&mut squares, placements);
            }
        }
        assert forall|key: u16| squares@.contains(key) <==> played_squares(
            more,
            player,
        ).contains(key) by {
            if before.contains(key) {
                let i = choose|i: int|
                    0 <= i < less.len() && plays_square(*(#[trigger] less[i]), player, key);
                assert(plays_square(*more[i], player, key));
            }
            if plays_square(*events@[at as int], player, key) {
                assert(plays_square(*more[at as int], player, key));
            }
            if played_squares(more, player).contains(key) {
                let i = choose|i: int|
                    0 <= i < more.len() && plays_square(*(#[trigger] more[i]), player, key);
                if i < at {
                    assert(plays_square(*less[i], player, key));
                }
            }
        }
        assert(squares@ =~= played_squares(more, player));
        at = at + 1;
    }
    assert(events@.take(at as int) =~= events@);
    squares
}

/// What the page says of an event that is an action: a sentence and the squares played.
pub open spec fn action_of(event: GameEvent, names: NamesView) -> Option<(Seq<char>, Set<u16>)> {
    match event {
        GameEvent::TilesPlayed { player_id, placements, score, .. } => Some(
            (
                names.name(player_id) + " played for "@ + text::decimal(score as nat)
                    + " points."@,
                placements@.dom(),
            ),
        ),
        GameEvent::TilesExchanged { player_id, returned, .. } => Some(
            (
                names.name(player_id) + " exchanged "@ + text::decimal(returned@.len())
                    + " tile(s)."@,
                Set::empty(),
            ),
        ),
        GameEvent::TurnPassed { player_id } => Some(
            (names.name(player_id) + " passed."@, Set::empty()),
        ),
        GameEvent::GameResigned { player_id, .. } => Some(
            (names.name(player_id) + " resigned."@, Set::empty()),
        ),
        _ => None,
    }
}

/// What the page says of the last action.
pub open spec fn latest_action_of(events: Seq<&GameEvent>, names: NamesView) -> Option<
    (Seq<char>, Set<u16>),
>
    decreases events.len(),
{
    if events.len() == 0 {
        None
    } else {
        match action_of(*events.last(), names) {
            Some(action) => Some(action),
            None => latest_action_of(events.drop_last(), names),
        }
    }
}

fn describe_action(event: &GameEvent, names: &PlayerNames) -> (action: Option<
    (String, BTreeSet<u16>),
>)
    ensures
        match action {
            Some(action) => action_of(*event, names@) == Some((action.0@, action.1@)),
            None => action_of(*event, names@) is None,
        },
{
    match event {
        GameEvent::TilesPlayed { player_id, placements, score, .. } => {
            let mut squares: BTreeSet<u16> = BTreeSet::new();
            add_squares(&mut squares, placements);
            assert(squares@ =~= placements@.dom());
            Some(
                (
                    joined(names.name(*player_id), " played for ").concat(
                        decimal_text(*score as u64).as_str(),
                    ).concat(" points."),
                    squares,
                ),
            )
        },
        GameEvent::TilesExchanged { player_id, returned, .. } => Some(
            (
                joined(names.name(*player_id), " exchanged ").concat(
                    decimal_text(returned.len() as u64).as_str(),
                ).concat(" tile(s)."),
                BTreeSet::new(),
            ),
        ),
        GameEvent::TurnPassed { player_id } => Some(
            (joined(names.name(*player_id), " passed."), BTreeSet::new()),
        ),
        GameEvent::GameResigned { player_id, .. } => Some(
            (joined(names.name(*player_id), " resigned."), BTreeSet::new()),
        ),
        _ => None,
    }
}

/// The last public action and the squares it played.
pub fn latest_public_action(events: &Vec<&GameEvent>, names: &PlayerNames) -> (action: Option<
    (String, BTreeSet<u16>),
>)
    ensures
        match action {
            Some(action) => latest_action_of(events@, names@) == Some((action.0@, action.1@)),
            None => latest_action_of(events@, names@) is None,
        },
{
    let mut end: usize = events.len();
    assert(events@.take(end as int) =~= events@);
    while end > 0
        invariant
            end <= events@.len(),
            latest_action_of(events@, names@) == latest_action_of(
                events@.take(end as int),
                names@,
            ),
        decreases end,
    {
        assert(events@.take(end as int).drop_last() =~= events@.take(end - 1));
        assert(events@.take(end as int).last() == events@[end - 1]);
        end = end - 1;
        if let Some(action) = describe_action(events[end], names) {
            return Some(action);
        }
    }
    None
}

pub open spec fn is_resignation(event: GameEvent) -> bool {
    event is GameResigned
}

/// The place behind the last completion, or 0 where there is none.
pub open spec fn completion_end(events: Seq<&GameEvent>) -> int
    decreases events.len(),
{
    if events.len() == 0 {
        0
    } else if (*events.last()) is GameCompleted {
        events.len() as int
    } else {
        completion_end(events.drop_last())
    }
}

/// How many passes end the list.
pub open spec fn trailing_passes(events: Seq<&GameEvent>) -> nat
    decreases events.len(),
{
    if events.len() == 0 || !((*events.last()) is TurnPassed) {
        0
    } else {
        1 + trailing_passes(events.drop_last())
    }
}

/// Why a game ended, as the page says it.
pub open spec fn reason_of(events: Seq<&GameEvent>, pass_limit: u8) -> Option<Seq<char>> {
    if exists|i: int| 0 <= i < events.len() && is_resignation(*(#[trigger] events[i])) {
        Some("Resignation"@)
    } else if completion_end(events) == 0 {
        None
    } else if trailing_passes(events.take(completion_end(events) - 1)) >= pass_limit {
        Some("Consecutive-pass limit"@)
    } else {
        Some("A player emptied their rack"@)
    }
}

/// Why a game ended; nothing while it has not.
pub fn completion_reason(events: &Vec<&GameEvent>, pass_limit: u8) -> (reason: Option<String>)
    ensures
        text::opt_view(reason) == reason_of(events@, pass_limit),
{
    let mut at: usize = 0;
    while at < events.len()
        invariant
            at <= events@.len(),
            forall|i: int| 0 <= i < at ==> !is_resignation(*(#[trigger] events@[i])),
        decreases events@.len() - at,
    {
        if let GameEvent::GameResigned { .. } = events[at] {
            assert(is_resignation(*events@[at as int]));
            return Some("Resignation".to_owned());
        }
        at = at + 1;
    }
    let mut end: usize = events.len();
    assert(events@.take(end as int) =~= events@);
    while end > 0
        invariant
            end <= events@.len(),
            forall|i: int|
                0 <= i < events@.len() ==> !is_resignation(*(#[trigger] events@[i])),
            completion_end(events@) == completion_end(events@.take(end as int)),
        decreases end,
    {
        assert(events@.take(end as int).drop_last() =~= events@.take(end - 1));
        assert(events@.take(end as int).last() == events@[end - 1]);
        end = end - 1;
        if let GameEvent::GameCompleted { .. } = events[end] {
            let ghost before = events@.take(end as int);
            assert(completion_end(events@) == end + 1);
            let mut passes: usize = 0;
            assert(before.take(end as int) =~= before);
            while passes < end
                invariant_except_break
                    passes <= end,
                    end < events@.len(),
                    before == events@.take(end as int),
                    trailing_passes(before) == passes + trailing_passes(
                        before.take(end - passes),
                    ),
                ensures
                    passes <= end,
                    trailing_passes(before) == passes,
                decreases end - passes,
            {
                assert(before.take(end - passes).drop_last() =~= before.take(end - passes - 1));
                assert(before.take(end - passes).last() == events@[end - passes - 1]);
                if let GameEvent::TurnPassed { .. } = events[end - passes - 1] {
                    passes = passes + 1;
                } else {
                    break;
                }
            }
            if passes >= pass_limit as usize {
                return Some("Consecutive-pass limit".to_owned());
            }
            return Some("A player emptied their rack".to_owned());
        }
    }
    None
}

/// Another member's user among seat rows: the first stored user that is not `user_id`.
pub open spec fn other_user(rows: Seq<Row>, user_id: Seq<char>) -> Option<Seq<char>>
    decreases rows.len(),
{
    if rows.len() == 0 {
        None
    } else {
        match rows[0].text_at("user_id"@) {
            Some(user) if user != user_id => Some(user),
            _ => other_user(rows.skip(1), user_id),
        }
    }
}

fn find_other_user(rows: &Vec<Row>, user_id: &str) -> (user: Option<String>)
    ensures
        text::opt_view(user) == other_user(rows@, user_id@),
{
    let mut at: usize = 0;
    assert(rows@.skip(0) =~= rows@);
    while at < rows.len()
        invariant
            at <= rows@.len(),
            other_user(rows@, user_id@) == other_user(rows@.skip(at as int), user_id@),
        decreases rows@.len() - at,
    {
        assert(rows@.skip(at as int).skip(1) =~= rows@.skip(at + 1));
        assert(rows@.skip(at as int)[0] == rows@[at as int]);
        if let Some(user) = rows[at].get_text("user_id") {
            if !same_text(user.as_str(), user_id) {
                return Some(user);
            }
        }
        at = at + 1;
    }
    None
}

/// A member as the page shows them.
#[derive(Debug, Clone, PartialEq, Eq)]
pub struct PagePerson {
    pub username: String,
    pub display_name: String,
    pub avatar_url: Option<String>,
}

/// The mathematical content of a [`PagePerson`].
#[verifier::ext_equal]
pub struct PersonView {
    pub username: Seq<char>,
    pub display_name: Seq<char>,
    pub avatar_url: Option<Seq<char>>,
}

impl View for PagePerson {
    type V = PersonView;

    open spec fn view(&self) -> PersonView {
        PersonView {
            username: self.username@,
            display_name: self.display_name@,
            avatar_url: text::opt_view(self.avatar_url),
        }
    }
}

/// Load the viewer and the opponent.
pub open spec fn people_run(trace: Trace, game_id: GameId, user_id: Seq<char>) -> Run<
    (PersonView, PersonView),
    PresentationError,
> {
    script::chain(
        username_run(trace, user_id),
        |viewer: Seq<char>, trace: Trace|
            script::query(
                trace,
                Op::select("game_players"@).where_text("game_id"@, ids::id_text_of(game_id)),
                |rows: Seq<Row>, trace: Trace|
                    match other_user(rows, user_id) {
                        None => script::fail(trace, PresentationError::Malformed),
                        Some(other) => script::chain(
                            username_run(trace, other),
                            |opponent: Seq<char>, trace: Trace|
                                faces_run(trace, user_id, viewer, other, opponent),
                        ),
                    },
            ),
    )
}

pub open spec fn faces_run(
    trace: Trace,
    user_id: Seq<char>,
    viewer: Seq<char>,
    other: Seq<char>,
    opponent: Seq<char>,
) -> Run<(PersonView, PersonView), PresentationError> {
    script::chain(
        display_name_run(trace, user_id, viewer),
        |viewer_display: Seq<char>, trace: Trace|
            script::chain(
                display_name_run(trace, other, opponent),
                |opponent_display: Seq<char>, trace: Trace|
                    script::chain(
                        avatar_run(trace, user_id),
                        |viewer_avatar: Option<Seq<char>>, trace: Trace|
                            script::reshape(
                                avatar_run(trace, other),
                                |opponent_avatar: Option<Seq<char>>|
                                    (
                                        PersonView {
                                            username: viewer,
                                            display_name: viewer_display,
                                            avatar_url: viewer_avatar,
                                        },
                                        PersonView {
                                            username: opponent,
                                            display_name: opponent_display,
                                            avatar_url: opponent_avatar,
                                        },
                                    ),
                            ),
                    ),
            ),
    )
}

fn load_people<'a>(script: &mut Script<'a>, game_id: GameId, user_id: &str) -> (people: Result<
    (PagePerson, PagePerson),
    Stop<'a, PresentationError>,
>)
    ensures
        script::ran(
            people,
            final(script)@,
            |people: (PagePerson, PagePerson)| (people.0@, people.1@),
        ) == people_run(old(script)@, game_id, user_id@),
{
    let viewer = username_for_user(script, user_id)?;
    let rows = script.query(
        Statement::select("game_players").where_text("game_id", id_text(game_id).as_str()),
    )?;
    let other = match find_other_user(rows, user_id) {
        Some(other) => other,
        None => return Err(Stop::Fail(PresentationError::Malformed)),
    };
    let opponent = username_for_user(script, other.as_str())?;
    let viewer_display = display_name_for_user(script, user_id, viewer.as_str())?;
    let opponent_display = display_name_for_user(script, other.as_str(), opponent.as_str())?;
    let viewer_avatar = avatar_for_user(script, user_id)?;
    let opponent_avatar = avatar_for_user(script, other.as_str())?;
    Ok(
        (
            PagePerson {
                username: viewer,
                display_name: viewer_display,
                avatar_url: viewer_avatar,
            },
            PagePerson {
                username: opponent,
                display_name: opponent_display,
                avatar_url: opponent_avatar,
            },
        ),
    )
}

/// The page of one game for one member, rebuilt from canonical persistence.
#[derive(Debug)]
pub struct AuthorizedGamePage<'a> {
    pub user_id: String,
    pub viewer_player: PlayerId,
    pub game_id: GameId,
    pub view: GameView,
    pub rules: &'a RuleProfile,
    pub history: Vec<MoveHistoryView>,
    pub final_score_adjustments: BTreeMap<PlayerId, i64>,
    pub rack_order: Vec<u16>,
    pub exchange_available: bool,
    pub viewer: PagePerson,
    pub opponent: PagePerson,
    pub latest_action: Option<String>,
    /// Keys of the squares of the latest action.
    pub latest_play_coordinates: BTreeSet<u16>,
    /// Keys of the squares that the viewer has played.
    pub viewer_play_coordinates: BTreeSet<u16>,
    pub completion_reason: Option<String>,
    pub state: &'a GameState,
    pub completed: bool,
}

/// The mathematical content of an [`AuthorizedGamePage`].
#[verifier::ext_equal]
pub struct PageView {
    pub user_id: Seq<char>,
    pub viewer_player: PlayerId,
    pub game_id: GameId,
    pub view: SeenGame,
    pub rules: RuleProfile,
    pub history: Seq<HistoryRow>,
    pub final_score_adjustments: Map<PlayerId, i64>,
    pub rack_order: Seq<u16>,
    pub exchange_available: bool,
    pub viewer: PersonView,
    pub opponent: PersonView,
    pub latest_action: Option<Seq<char>>,
    pub latest_play_coordinates: Set<u16>,
    pub viewer_play_coordinates: Set<u16>,
    pub completion_reason: Option<Seq<char>>,
    pub state: GameState,
    pub completed: bool,
}

impl<'a> View for AuthorizedGamePage<'a> {
    type V = PageView;

    open spec fn view(&self) -> PageView {
        PageView {
            user_id: self.user_id@,
            viewer_player: self.viewer_player,
            game_id: self.game_id,
            view: self.view@,
            rules: *self.rules,
            history: move_history::history_rows(self.history@),
            final_score_adjustments: self.final_score_adjustments@,
            rack_order: self.rack_order@,
            exchange_available: self.exchange_available,
            viewer: self.viewer@,
            opponent: self.opponent@,
            latest_action: text::opt_view(self.latest_action),
            latest_play_coordinates: self.latest_play_coordinates@,
            viewer_play_coordinates: self.viewer_play_coordinates@,
            completion_reason: text::opt_view(self.completion_reason),
            state: *self.state,
            completed: self.completed,
        }
    }
}

/// Whether the history holds a word.
pub open spec fn word_played(history: Seq<HistoryRow>, word: Seq<char>) -> bool {
    exists|i: int| 0 <= i < history.len() && (#[trigger] history[i]).played_words.contains(word)
}

impl<'a> AuthorizedGamePage<'a> {
    /// Whether a word has been played in the game.
    pub fn has_played_word(&self, word: &str) -> (played: bool)
        ensures
            played == word_played(self@.history, word@),
    {
        let ghost history = self@.history;
        let mut row: usize = 0;
        while row < self.history.len()
            invariant
                row <= self.history@.len(),
                history == self@.history,
                history == move_history::history_rows(self.history@),
                forall|i: int|
                    0 <= i < row ==> !(#[trigger] history[i]).played_words.contains(word@),
            decreases self.history@.len() - row,
        {
            let words = &self.history[row].played_words;
            let ghost shown = text::texts_view(words@);
            assert(history[row as int].played_words == shown);
            let mut at: usize = 0;
            while at < words.len()
                invariant
                    at <= words@.len(),
                    row < self.history@.len(),
                    history == self@.history,
                    history.len() == self.history@.len(),
                    shown == text::texts_view(words@),
                    history[row as int].played_words == shown,
                    forall|i: int| 0 <= i < at ==> #[trigger] shown[i] != word@,
                decreases words@.len() - at,
            {
                if same_text(words[at].as_str(), word) {
                    assert(shown[at as int] == word@);
                    assert(history[row as int].played_words.contains(word@));
                    return true;
                }
                at = at + 1;
            }
            row = row + 1;
        }
        false
    }
}

/// What a page shows of a game, given its members' names.
pub open spec fn page_names(player: PlayerId, viewer: PersonView, opponent: PersonView) -> NamesView {
    NamesView {
        named: seq![(player, viewer.display_name)],
        otherwise: opponent.display_name,
    }
}

/// Load a game's page for the signed-in member.
pub open spec fn game_page_run(
    trace: Trace,
    session: Option<Seq<char>>,
    game: Seq<char>,
    now: Timestamp,
) -> Run<PageView, PresentationError> {
    script::chain(
        authenticated_user_run(trace, session, now),
        |user_id: Seq<char>, trace: Trace|
            match ids::parsed_id(game) {
                None => script::fail(trace, PresentationError::UnknownGame),
                Some(game_id) => script::chain(
                    script::lift(
                        game_service::player_for_user_run(trace, game_id, user_id),
                        |error: GameServiceError| seat_error(error),
                    ),
                    |player: PlayerId, trace: Trace|
                        script::chain(
                            script::lift(
                                journal::recover_game_run(trace, game_id),
                                |error: JournalError| PresentationError::Journal(error),
                            ),
                            |state: GameState, trace: Trace|
                                supported_run(trace, user_id, game_id, player, state),
                        ),
                ),
            },
    )
}

/// Go on with a page whose game has been recovered: find its rules and its word list.
pub open spec fn supported_run(
    trace: Trace,
    user_id: Seq<char>,
    game_id: GameId,
    player: PlayerId,
    state: GameState,
) -> Run<PageView, PresentationError> {
    script::consult(
        trace,
        Ask::FindRules(state.metadata.rules),
        |reply: Reply| script::reply_rules(reply),
        |rules: Result<RuleProfile, String>, trace: Trace|
            match rules {
                Err(_) => script::fail(trace, PresentationError::UnsupportedRules),
                Ok(rules) => script::consult(
                    trace,
                    Ask::FindDictionary(state),
                    |reply: Reply| script::reply_accepted(reply),
                    |found: Result<(), String>, trace: Trace|
                        match found {
                            Err(_) => script::fail(trace, PresentationError::UnsupportedDictionary),
                            Ok(_) => if state.players@.contains(player)
                                && state.racks@.contains_key(player) {
                                journaled_run(trace, user_id, game_id, player, state, rules)
                            } else {
                                script::fail(trace, PresentationError::Forbidden)
                            },
                        },
                ),
            },
    )
}

/// Go on with a page whose viewer is seated: load the journal and the members.
pub open spec fn journaled_run(
    trace: Trace,
    user_id: Seq<char>,
    game_id: GameId,
    player: PlayerId,
    state: GameState,
    rules: RuleProfile,
) -> Run<PageView, PresentationError> {
    script::chain(
        script::lift(
            journal::load_events_run(trace, game_id, 0),
            |error: JournalError| PresentationError::Journal(error),
        ),
        |records: Seq<EventRecord>, trace: Trace|
            script::chain(
                people_run(trace, game_id, user_id),
                |people: (PersonView, PersonView), trace: Trace|
                    told_run(
                        trace,
                        user_id,
                        game_id,
                        player,
                        state,
                        rules,
                        journal::event_refs(records),
                        people,
                    ),
            ),
    )
}

/// Go on with a page whose events and members are there: derive history, adjustments and rack
/// order.
pub open spec fn told_run(
    trace: Trace,
    user_id: Seq<char>,
    game_id: GameId,
    player: PlayerId,
    state: GameState,
    rules: RuleProfile,
    events: Seq<&GameEvent>,
    people: (PersonView, PersonView),
) -> Run<PageView, PresentationError> {
    let names = page_names(player, people.0, people.1);
    script::chain(
        script::lift(
            move_history::move_history_run(trace, events, rules, names),
            |error: MoveHistoryError| PresentationError::MoveHistory(error),
        ),
        |history: Seq<HistoryRow>, trace: Trace|
            script::chain(
                script::lift(
                    move_history::adjustments_run(trace, None, events, 0),
                    |error: ReplayError| PresentationError::Replay(error),
                ),
                |adjusted: Map<PlayerId, i64>, trace: Trace|
                    script::reshape(
                        script::lift(
                            rack_preferences::load_rack_order_run(trace, game_id, user_id),
                            |error: RackPreferenceError| PresentationError::RackPreference(error),
                        ),
                        |rack_order: Seq<u16>|
                            page_of(
                                user_id,
                                game_id,
                                player,
                                state,
                                rules,
                                events,
                                people,
                                history,
                                adjusted,
                                rack_order,
                            ),
                    ),
            ),
    )
}

/// The page of its parts.
pub open spec fn page_of(
    user_id: Seq<char>,
    game_id: GameId,
    player: PlayerId,
    state: GameState,
    rules: RuleProfile,
    events: Seq<&GameEvent>,
    people: (PersonView, PersonView),
    history: Seq<HistoryRow>,
    adjusted: Map<PlayerId, i64>,
    rack_order: Seq<u16>,
) -> PageView {
    let latest = latest_action_of(events, page_names(player, people.0, people.1));
    PageView {
        user_id,
        viewer_player: player,
        game_id,
        view: components::seen_game(state, player, rules),
        rules,
        history,
        final_score_adjustments: adjusted,
        rack_order,
        exchange_available: state.bag@.len() >= rules.minimum_tiles_for_exchange,
        viewer: people.0,
        opponent: people.1,
        latest_action: match latest {
            Some(latest) => Some(latest.0),
            None => None,
        },
        latest_play_coordinates: match latest {
            Some(latest) => latest.1,
            None => Set::empty(),
        },
        viewer_play_coordinates: played_squares(events, player),
        completion_reason: reason_of(events, rules.scoreless_turn_limit),
        state,
        completed: state.status == GameStatus::Completed,
    }
}

fn tell_page<'a>(
    script: &mut Script<'a>,
    user_id: &str,
    game_id: GameId,
    player: PlayerId,
    state: &'a GameState,
    rules: &'a RuleProfile,
    view: GameView,
) -> (page: Result<AuthorizedGamePage<'a>, Stop<'a, PresentationError>>)
    requires
        view@ == components::seen_game(*state, player, *rules),
    ensures
        script::ran(page, final(script)@, |page: AuthorizedGamePage<'a>| page@) == journaled_run(
            old(script)@,
            user_id@,
            game_id,
            player,
            *state,
            *rules,
        ),
{
    let loaded = match load_events(script, game_id, 0) {
        Ok(loaded) => loaded,
        Err(stop) => return Err(journal_stop(stop)),
    };
    let events = canonical_events(&loaded);
    let (viewer, opponent) = load_people(script, game_id, user_id)?;
    let names = PlayerNames {
        named: vec![(player, viewer.display_name.clone())],
        otherwise: opponent.display_name.clone(),
    };
    assert(names@ =~= page_names(player, viewer@, opponent@));
    let history = match move_history_view(script, &events, rules, &names) {
        Ok(history) => history,
        Err(stop) => return Err(history_stop(stop)),
    };
    let adjusted = match final_score_adjustments(script, &events) {
        Ok(adjusted) => adjusted,
        Err(stop) => return Err(adjustment_stop(stop)),
    };
    let rack_order = match load_rack_order(script, game_id, user_id) {
        Ok(rack_order) => rack_order,
        Err(stop) => return Err(rack_stop(stop)),
    };
    let (latest_action, latest_play_coordinates): (Option<String>, BTreeSet<u16>) = match
        latest_public_action(&events, &names) {
        Some((sentence, squares)) => (Some(sentence), squares),
        None => (None, BTreeSet::new()),
    };
    let completed: bool = match view.status {
        GameStatus::Completed => true,
        GameStatus::Active => false,
    };
    Ok(
        AuthorizedGamePage {
            user_id: user_id.to_owned(),
            viewer_player: player,
            game_id,
            view,
            rules,
            history,
            final_score_adjustments: adjusted,
            rack_order,
            exchange_available: state.bag.len() >= rules.minimum_tiles_for_exchange as usize,
            viewer,
            opponent,
            latest_action,
            latest_play_coordinates,
            viewer_play_coordinates: player_play_coordinates(&events, player),
            completion_reason: completion_reason(&events, rules.scoreless_turn_limit),
            state,
            completed,
        },
    )
}

/// Loads an authorized game view and chronological canonical history.
pub fn load_authorized_game_page<'a>(
    script: &mut Script<'a>,
    cookies: &Vec<(String, String)>,
    game_id: &str,
    now: Timestamp,
) -> (page: Result<AuthorizedGamePage<'a>, Stop<'a, PresentationError>>)
    ensures
        script::ran(page, final(script)@, |page: AuthorizedGamePage<'a>| page@) == game_page_run(
            old(script)@,
            cookie_of(cookies@, SESSION_COOKIE_NAME@),
            game_id@,
            now,
        ),
{
    let user_id = authenticated_user(script, cookies, now)?;
    let game_id: GameId = match read_id(game_id) {
        Some(game_id) => game_id,
        None => return Err(Stop::Fail(PresentationError::UnknownGame)),
    };
    let player: PlayerId = match player_for_user(script, game_id, user_id.as_str()) {
        Ok(player) => player,
        Err(stop) => return Err(seat_stop(stop)),
    };
    let state = match recover_game(script, game_id) {
        Ok(state) => state,
        Err(stop) => return Err(journal_stop(stop)),
    };
    let rules = match script.rules(Request::FindRules(&state.metadata.rules))? {
        Ok(rules) => rules,
        Err(_) => return Err(Stop::Fail(PresentationError::UnsupportedRules)),
    };
    if !script.accepted(Request::FindDictionary(state))? {
        return Err(Stop::Fail(PresentationError::UnsupportedDictionary));
    }
    if !state.racks.contains_key(&player) {
        return Err(Stop::Fail(PresentationError::Forbidden));
    }
    let view = match game_view(state, player, Some(rules)) {
        Some(view) => view,
        None => return Err(Stop::Fail(PresentationError::Forbidden)),
    };
    tell_page(script, user_id.as_str(), game_id, player, state, rules, view)
}

/// Whoever has no seat in a game is refused its page.
pub proof fn strangers_are_refused(
    trace: Trace,
    session: Option<Seq<char>>,
    game: Seq<char>,
    now: Timestamp,
)
    ensures
        match game_page_run(trace, session, game, now).outcome {
            Outcome::Done(page) => session is Some && ids::parsed_id(game) == Some(page.game_id)
                && page.state.players@.contains(page.viewer_player) && page.view
                == components::seen_game(page.state, page.viewer_player, page.rules),
            _ => true,
        },
{
}

} // verus!
