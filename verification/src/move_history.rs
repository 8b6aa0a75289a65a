//! Chronological public history derived from canonical events.
use crate::game::{GameEvent, GameState, PlayerId, ReplayError, RuleProfile};
use crate::order::{self, players_keys};
use crate::script::{self, Ask, Reply, Request, Run, Script, Stop, Trace};
use crate::text::{self, decimal_text, join, joined};
use std::collections::BTreeMap;
use vstd::prelude::*;

verus! {

/// Failure while deriving history from events.
#[derive(Debug, Clone, PartialEq, Eq)]
pub enum MoveHistoryError {
    /// An event does not fit where it stands.
    Replay(ReplayError),
    /// The words of a committed play cannot be told.
    Analysis(String),
}

impl MoveHistoryError {
    /// The error in words, where it is not for the rules engine to choose them.
    pub open spec fn message_of(self) -> Option<Seq<char>> {
        match self {
            MoveHistoryError::Replay(error) => error.message_of(),
            MoveHistoryError::Analysis(reason) => Some(reason@),
        }
    }

    pub fn message(self) -> (message: Option<String>)
        ensures
            text::opt_view(message) == self.message_of(),
    {
        match self {
            MoveHistoryError::Replay(error) => error.message(),
            MoveHistoryError::Analysis(reason) => Some(reason),
        }
    }
}

/// One row of history.
#[derive(Debug, Clone, PartialEq, Eq)]
pub struct MoveHistoryView {
    pub revision: u64,
    pub kind: String,
    pub description: String,
    pub played_words: Vec<String>,
    pub score_summary: String,
}

/// The mathematical content of a [`MoveHistoryView`].
#[verifier::ext_equal]
pub struct HistoryRow {
    pub revision: u64,
    pub kind: Seq<char>,
    pub description: Seq<char>,
    pub played_words: Seq<Seq<char>>,
    pub score_summary: Seq<char>,
}

impl View for MoveHistoryView {
    type V = HistoryRow;

    open spec fn view(&self) -> HistoryRow {
        HistoryRow {
            revision: self.revision,
            kind: self.kind@,
            description: self.description@,
            played_words: text::texts_view(self.played_words@),
            score_summary: self.score_summary@,
        }
    }
}

pub open spec fn history_rows(rows: Seq<MoveHistoryView>) -> Seq<HistoryRow> {
    Seq::new(rows.len(), |i: int| rows[i]@)
}

/// The public names of players: those of some, and the one of everybody else.
#[derive(Debug, Clone, PartialEq, Eq)]
pub struct PlayerNames {
    pub named: Vec<(PlayerId, String)>,
    pub otherwise: String,
}

/// The mathematical content of [`PlayerNames`].
#[verifier::ext_equal]
pub struct NamesView {
    pub named: Seq<(PlayerId, Seq<char>)>,
    pub otherwise: Seq<char>,
}

impl View for PlayerNames {
    type V = NamesView;

    open spec fn view(&self) -> NamesView {
        NamesView {
            named: Seq::new(self.named@.len(), |i: int| (self.named@[i].0, self.named@[i].1@)),
            otherwise: self.otherwise@,
        }
    }
}

impl NamesView {
    /// The public name of a player: the first that is theirs.
    pub open spec fn name(self, player: PlayerId) -> Seq<char> {
        self.name_from(player, 0)
    }

    /// The public name of a player among the names from `index` on.
    pub open spec fn name_from(self, player: PlayerId, index: int) -> Seq<char>
        decreases self.named.len() - index,
    {
        if index < 0 || index >= self.named.len() {
            self.otherwise
        } else if self.named[index].0 == player {
            self.named[index].1
        } else {
            self.name_from(player, index + 1)
        }
    }
}

impl PlayerNames {
    pub fn name(&self, player: PlayerId) -> (name: &str)
        ensures
            name@ == self@.name(player),
    {
        let mut index: usize = 0;
        while index < self.named.len()
            invariant
                index <= self.named@.len(),
                self@.name(player) == self@.name_from(player, index as int),
            decreases self.named@.len() - index,
        {
            if self.named[index].0 == player {
                return self.named[index].1.as_str();
            }
            index = index + 1;
        }
        self.otherwise.as_str()
    }
}

/// What history says of an event: its kind, a sentence and the words played.
#[verifier::ext_equal]
pub struct Described {
    pub kind: Seq<char>,
    pub description: Seq<char>,
    pub played_words: Seq<Seq<char>>,
}

pub open spec fn played_sentence(name: Seq<char>, words: Seq<Seq<char>>, score: u32) -> Seq<char> {
    name + " played "@ + text::joined_with(words, ", "@) + " for "@ + text::decimal(score as nat)
        + " points."@
}

pub open spec fn exchanged_sentence(name: Seq<char>, count: nat) -> Seq<char> {
    name + " exchanged "@ + text::decimal(count) + " tile"@ + (if count == 1 {
        ""@
    } else {
        "s"@
    }) + "."@
}

pub open spec fn resigned_sentence(
    names: NamesView,
    player: PlayerId,
    winner: Option<PlayerId>,
) -> Seq<char> {
    match winner {
        Some(winner) => names.name(player) + " resigned; "@ + names.name(winner) + " won."@,
        None => names.name(player) + " resigned."@,
    }
}

pub open spec fn completed_sentence(names: NamesView, winner: Option<PlayerId>) -> Seq<char> {
    match winner {
        Some(winner) => "Game completed; "@ + names.name(winner) + " won."@,
        None => "Game completed in a tie."@,
    }
}

/// What history says of an event that needs no analysis; nothing where the event cannot stand
/// there.
pub open spec fn plain_description(
    started: bool,
    event: GameEvent,
    names: NamesView,
) -> Option<Described> {
    if !started {
        match event {
            GameEvent::GameStarted { .. } => Some(
                Described {
                    kind: "GAME_STARTED"@,
                    description: "Game started."@,
                    played_words: Seq::empty(),
                },
            ),
            _ => None,
        }
    } else {
        match event {
            GameEvent::TilesExchanged { player_id, returned, .. } => Some(
                Described {
                    kind: "TILES_EXCHANGED"@,
                    description: exchanged_sentence(names.name(player_id), returned@.len()),
                    played_words: Seq::empty(),
                },
            ),
            GameEvent::TurnPassed { player_id } => Some(
                Described {
                    kind: "TURN_PASSED"@,
                    description: names.name(player_id) + " passed."@,
                    played_words: Seq::empty(),
                },
            ),
            GameEvent::GameResigned { player_id, winner } => Some(
                Described {
                    kind: "GAME_RESIGNED"@,
                    description: resigned_sentence(names, player_id, winner),
                    played_words: Seq::empty(),
                },
            ),
            GameEvent::GameCompleted { winner, .. } => Some(
                Described {
                    kind: "GAME_COMPLETED"@,
                    description: completed_sentence(names, winner),
                    played_words: Seq::empty(),
                },
            ),
            _ => None,
        }
    }
}

/// Describe an event after `state`.
pub open spec fn describe_run(
    trace: Trace,
    state: Option<GameState>,
    event: GameEvent,
    rules: RuleProfile,
    names: NamesView,
) -> Run<Described, MoveHistoryError> {
    match (state, event) {
        (Some(state), GameEvent::TilesPlayed { player_id, score, .. }) => script::consult(
            trace,
            Ask::Analyze(state, event, rules),
            |reply: Reply| script::reply_words(reply),
            |words: Result<Seq<Seq<char>>, String>, trace: Trace|
                match words {
                    Err(reason) => script::fail(trace, MoveHistoryError::Analysis(reason)),
                    Ok(words) => script::done(
                        trace,
                        Described {
                            kind: "TILES_PLAYED"@,
                            description: played_sentence(names.name(player_id), words, score),
                            played_words: words,
                        },
                    ),
                },
        ),
        _ => match plain_description(state is Some, event, names) {
            Some(described) => script::done(trace, described),
            None => script::fail(trace, MoveHistoryError::Replay(ReplayError::MissingStart)),
        },
    }
}

/// Every player's name and score, in seat order.
pub open spec fn score_summary_of(state: GameState, names: NamesView) -> Seq<char> {
    text::joined_with(
        Seq::new(
            state.players@.len(),
            |i: int|
                names.name(state.players@[i]) + " "@ + text::decimal(
                    state.scores@[state.players@[i]] as nat,
                ),
        ),
        " – "@,
    )
}

/// Describe the events from `index` on, after `state`, behind the rows `told`.
pub open spec fn tell_run(
    trace: Trace,
    state: Option<GameState>,
    events: Seq<&GameEvent>,
    rules: RuleProfile,
    names: NamesView,
    index: int,
    told: Seq<HistoryRow>,
) -> Run<Seq<HistoryRow>, MoveHistoryError>
    decreases events.len() - index,
{
    if index >= events.len() {
        script::done(trace, told)
    } else {
        script::chain(
            describe_run(trace, state, *events[index], rules, names),
            |described: Described, trace: Trace|
                script::consult(
                    trace,
                    Ask::Apply(state, *events[index]),
                    |reply: Reply| script::reply_state(reply),
                    |next: Result<GameState, String>, trace: Trace|
                        match next {
                            Err(reason) => script::fail(
                                trace,
                                MoveHistoryError::Replay(ReplayError::Refused(reason)),
                            ),
                            Ok(next) => if next.scored() {
                                tell_run(
                                    trace,
                                    Some(next),
                                    events,
                                    rules,
                                    names,
                                    index + 1,
                                    told.push(
                                        HistoryRow {
                                            revision: next.revision,
                                            kind: described.kind,
                                            description: described.description,
                                            played_words: described.played_words,
                                            score_summary: score_summary_of(next, names),
                                        },
                                    ),
                                )
                            } else {
                                script::fail(
                                    trace,
                                    MoveHistoryError::Replay(ReplayError::MissingScore),
                                )
                            },
                        },
                ),
        )
    }
}

/// The history of a journal.
pub open spec fn move_history_run(
    trace: Trace,
    events: Seq<&GameEvent>,
    rules: RuleProfile,
    names: NamesView,
) -> Run<Seq<HistoryRow>, MoveHistoryError> {
    tell_run(trace, None, events, rules, names, 0, Seq::empty())
}

/// What is said of one event.
struct Told {
    kind: &'static str,
    description: String,
    played_words: Vec<String>,
}

impl View for Told {
    type V = Described;

    closed spec fn view(&self) -> Described {
        Described {
            kind: self.kind@,
            description: self.description@,
            played_words: text::texts_view(self.played_words@),
        }
    }
}

fn plain(kind: &'static str, description: String) -> (told: Told)
    ensures
        told@ == (Described {
            kind: kind@,
            description: description@,
            played_words: Seq::empty(),
        }),
{
    let told = Told { kind, description, played_words: Vec::new() };
    assert(told@.played_words =~= Seq::empty());
    told
}

fn describe_plain(started: bool, event: &GameEvent, names: &PlayerNames) -> (told: Option<Told>)
    ensures
        match told {
            Some(told) => plain_description(started, *event, names@) == Some(told@),
            None => plain_description(started, *event, names@) is None,
        },
{
    if !started {
        return match event {
            GameEvent::GameStarted { .. } => Some(
                plain("GAME_STARTED", "Game started.".to_owned()),
            ),
            _ => None,
        };
    }
    match event {
        GameEvent::TilesExchanged { player_id, returned, .. } => {
            let plural: &str = if returned.len() == 1 {
                ""
            } else {
                "s"
            };
            let count: u64 = returned.len() as u64;
            Some(
                plain(
                    "TILES_EXCHANGED",
                    joined(names.name(*player_id), " exchanged ").concat(
                        decimal_text(count).as_str(),
                    ).concat(" tile").concat(plural).concat("."),
                ),
            )
        },
        GameEvent::TurnPassed { player_id } => Some(
            plain("TURN_PASSED", joined(names.name(*player_id), " passed.")),
        ),
        GameEvent::GameResigned { player_id, winner } => {
            let description: String = match winner {
                Some(winner) => joined(names.name(*player_id), " resigned; ").concat(
                    names.name(*winner),
                ).concat(" won."),
                None => joined(names.name(*player_id), " resigned."),
            };
            Some(plain("GAME_RESIGNED", description))
        },
        GameEvent::GameCompleted { winner, .. } => {
            let description: String = match winner {
                Some(winner) => joined("Game completed; ", names.name(*winner)).concat(" won."),
                None => "Game completed in a tie.".to_owned(),
            };
            Some(plain("GAME_COMPLETED", description))
        },
        _ => None,
    }
}

fn copied(words: &Vec<String>) -> (copy: Vec<String>)
    ensures
        text::texts_view(copy@) == text::texts_view(words@),
{
    let mut copy: Vec<String> = Vec::new();
    let mut at: usize = 0;
    while at < words.len()
        invariant
            at <= words@.len(),
            copy@.len() == at,
            forall|i: int| 0 <= i < at ==> (#[trigger] copy@[i])@ == words@[i]@,
        decreases words@.len() - at,
    {
        copy.push(words[at].clone());
        at = at + 1;
    }
    assert(text::texts_view(copy@) =~= text::texts_view(words@));
    copy
}

fn describe<'a>(
    script: &mut Script<'a>,
    state: Option<&'a GameState>,
    event: &'a GameEvent,
    rules: &'a RuleProfile,
    names: &PlayerNames,
) -> (told: Result<Told, Stop<'a, MoveHistoryError>>)
    ensures
        script::ran(told, final(script)@, |told: Told| told@) == describe_run(
            old(script)@,
            script::owned(state),
            *event,
            *rules,
            names@,
        ),
{
    if let (Some(state), GameEvent::TilesPlayed { player_id, score, .. }) = (state, event) {
        let words = match script.words(Request::Analyze { state, event, rules })? {
            Ok(words) => words,
            Err(reason) => return Err(Stop::Fail(MoveHistoryError::Analysis(reason.clone()))),
        };
        let description = joined(names.name(*player_id), " played ").concat(
            join(words, ", ").as_str(),
        ).concat(" for ").concat(decimal_text(*score as u64).as_str()).concat(" points.");
        return Ok(Told { kind: "TILES_PLAYED", description, played_words: copied(words) });
    }
    match describe_plain(state.is_some(), event, names) {
        Some(told) => Ok(told),
        None => Err(Stop::Fail(MoveHistoryError::Replay(ReplayError::MissingStart))),
    }
}

fn score_summary(state: &GameState, names: &PlayerNames) -> (summary: String)
    requires
        state.scored(),
    ensures
        summary@ == score_summary_of(*state, names@),
{
    broadcast use vstd::std_specs::btree::group_btree_axioms;

    let mut parts: Vec<String> = Vec::new();
    let ghost wanted = Seq::new(
        state.players@.len(),
        |i: int|
            names@.name(state.players@[i]) + " "@ + text::decimal(
                state.scores@[state.players@[i]] as nat,
            ),
    );
    let mut at: usize = 0;
    while at < state.players.len()
        invariant
            at <= state.players@.len(),
            state.scored(),
            wanted == Seq::new(
                state.players@.len(),
                |i: int|
                    names@.name(state.players@[i]) + " "@ + text::decimal(
                        state.scores@[state.players@[i]] as nat,
                    ),
            ),
            parts@.len() == at,
            text::texts_view(parts@) == wanted.take(at as int),
        decreases state.players@.len() - at,
    {
        let player: PlayerId = state.players[at];
        assert(player == state.players@[at as int]);
        let score: u32 = match state.scores.get(&player) {
            Some(score) => *score,
            None => 0,
        };
        let ghost before = parts@;
        parts.push(
            joined(names.name(player), " ").concat(decimal_text(score as u64).as_str()),
        );
        assert(text::texts_view(parts@) =~= text::texts_view(before).push(parts@[at as int]@));
        assert(wanted.take(at + 1) =~= wanted.take(at as int).push(wanted[at as int]));
        at = at + 1;
    }
    assert(wanted.take(at as int) =~= wanted);
    join(&parts, " – ")
}

/// Derives chronological public history from canonical events.
pub fn move_history_view<'a>(
    script: &mut Script<'a>,
    events: &Vec<&'a GameEvent>,
    rules: &'a RuleProfile,
    names: &PlayerNames,
) -> (history: Result<Vec<MoveHistoryView>, Stop<'a, MoveHistoryError>>)
    ensures
        script::ran(history, final(script)@, |rows: Vec<MoveHistoryView>| history_rows(rows@))
            == move_history_run(old(script)@, events@, *rules, names@),
{
    let mut state: Option<&'a GameState> = None;
    let mut history: Vec<MoveHistoryView> = Vec::new();
    let mut index: usize = 0;
    assert(history_rows(history@) =~= Seq::empty());
    while index < events.len()
        invariant
            index <= events@.len(),
            move_history_run(old(script)@, events@, *rules, names@) == tell_run(
                script@,
                script::owned(state),
                events@,
                *rules,
                names@,
                index as int,
                history_rows(history@),
            ),
        decreases events@.len() - index,
    {
        let event: &'a GameEvent = events[index];
        let told = describe(script, state, event, rules, names)?;
        let next = match script.state(Request::Apply(state, event))? {
            Ok(next) => next,
            Err(reason) => return Err(
                Stop::Fail(MoveHistoryError::Replay(ReplayError::Refused(reason.clone()))),
            ),
        };
        if !next.is_scored() {
            return Err(Stop::Fail(MoveHistoryError::Replay(ReplayError::MissingScore)));
        }
        let ghost before = history_rows(history@);
        history.push(
            MoveHistoryView {
                revision: next.revision,
                kind: told.kind.to_owned(),
                description: told.description,
                played_words: told.played_words,
                score_summary: score_summary(next, names),
            },
        );
        assert(history_rows(history@) =~= before.push(history@.last()@));
        state = Some(next);
        index = index + 1;
    }
    Ok(history)
}

/// What completion changed of every player's score.
pub open spec fn adjustments(scores: Map<PlayerId, u32>, before: Map<PlayerId, u32>) -> Map<
    PlayerId,
    i64,
> {
    Map::new(
        |player: PlayerId| scores.contains_key(player),
        |player: PlayerId| (scores[player] - before[player]) as i64,
    )
}

/// The adjustments of the first completion from `index` on, after `state`. A completion that
/// scores a player whom the state before it does not have belongs to another journal.
pub open spec fn adjustments_run(
    trace: Trace,
    state: Option<GameState>,
    events: Seq<&GameEvent>,
    index: int,
) -> Run<Map<PlayerId, i64>, ReplayError>
    decreases events.len() - index,
{
    if index >= events.len() {
        script::done(trace, Map::empty())
    } else {
        match (*events[index], state) {
            (GameEvent::GameCompleted { scores, .. }, None) => script::fail(
                trace,
                ReplayError::EmptyJournal,
            ),
            (GameEvent::GameCompleted { scores, .. }, Some(before)) => if scores@.dom().subset_of(
                before.scores@.dom(),
            ) {
                script::done(trace, adjustments(scores@, before.scores@))
            } else {
                script::fail(trace, ReplayError::MissingScore)
            },
            _ => script::consult(
                trace,
                Ask::Apply(state, *events[index]),
                |reply: Reply| script::reply_state(reply),
                |next: Result<GameState, String>, trace: Trace|
                    match next {
                        Err(reason) => script::fail(trace, ReplayError::Refused(reason)),
                        Ok(next) => adjustments_run(trace, Some(next), events, index + 1),
                    },
            ),
        }
    }
}

fn adjust(scores: &BTreeMap<PlayerId, u32>, before: &BTreeMap<PlayerId, u32>) -> (adjusted: Option<
    BTreeMap<PlayerId, i64>,
>)
    ensures
        match adjusted {
            Some(adjusted) => scores@.dom().subset_of(before@.dom()) && adjusted@ == adjustments(
                scores@,
                before@,
            ),
            None => !scores@.dom().subset_of(before@.dom()),
        },
{
    broadcast use vstd::std_specs::btree::group_btree_axioms;

    let keys = players_keys(scores);
    let mut adjusted: BTreeMap<PlayerId, i64> = BTreeMap::new();
    let mut at: usize = 0;
    while at < keys.len()
        invariant
            at <= keys@.len(),
            order::lists_players(keys@, scores@.dom()),
            forall|i: int| 0 <= i < at ==> before@.contains_key(#[trigger] keys@[i]),
            forall|player: PlayerId|
                adjusted@.contains_key(player) <==> exists|i: int|
                    0 <= i < at && #[trigger] keys@[i] == player,
            forall|player: PlayerId| #[trigger]
                adjusted@.contains_key(player) ==> adjusted@[player] == adjustments(
                    scores@,
                    before@,
                )[player],
        decreases keys@.len() - at,
    {
        let player: PlayerId = keys[at];
        assert(keys@[at as int] == player);
        assert(scores@.contains_key(player)) by {
            assert(keys@.contains(keys@[at as int]));
            assert(keys@.to_set().contains(player));
        }
        let score: u32 = match scores.get(&player) {
            Some(score) => *score,
            None => 0,
        };
        let prior: u32 = match before.get(&player) {
            Some(prior) => *prior,
            None => {
                assert(scores@.dom().contains(player) && !before@.dom().contains(player));
                return None;
            },
        };
        let ghost previous = adjusted@;
        adjusted.insert(player, score as i64 - prior as i64);
        assert forall|other: PlayerId|
            adjusted@.contains_key(other) <==> exists|i: int|
                0 <= i < at + 1 && #[trigger] keys@[i] == other by {
            if previous.contains_key(other) {
                let i = choose|i: int| 0 <= i < at && #[trigger] keys@[i] == other;
                assert(keys@[i] == other);
            }
            if other == player {
                assert(keys@[at as int] == other);
            }
        }
        at = at + 1;
    }
    assert forall|player: PlayerId| scores@.contains_key(player) implies before@.contains_key(
        player,
    ) && adjusted@.contains_key(player) by {
        assert(keys@.to_set().contains(player));
        let i = choose|i: int| 0 <= i < keys@.len() && #[trigger] keys@[i] == player;
        assert(keys@[i] == player);
    }
    assert forall|player: PlayerId| adjusted@.contains_key(player) implies scores@.contains_key(
        player,
    ) by {
        let i = choose|i: int| 0 <= i < at && #[trigger] keys@[i] == player;
        assert(keys@.contains(keys@[i]));
        assert(keys@.to_set().contains(player));
    }
    assert(adjusted@ =~= adjustments(scores@, before@));
    Some(adjusted)
}

/// Per-player final score adjustments from the last state before completion. Positive values are
/// bonuses, negative ones deductions; a game without a final scoring has none.
pub fn final_score_adjustments<'a>(script: &mut Script<'a>, events: &Vec<&'a GameEvent>) -> (
    adjusted: Result<BTreeMap<PlayerId, i64>, Stop<'a, ReplayError>>)
    ensures
        script::ran(adjusted, final(script)@, |map: BTreeMap<PlayerId, i64>| map@)
            == adjustments_run(old(script)@, None, events@, 0),
{
    let mut state: Option<&'a GameState> = None;
    let mut index: usize = 0;
    while index < events.len()
        invariant
            index <= events@.len(),
            adjustments_run(old(script)@, None, events@, 0) == adjustments_run(
                script@,
                script::owned(state),
                events@,
                index as int,
            ),
        decreases events@.len() - index,
    {
        let event: &'a GameEvent = events[index];
        if let GameEvent::GameCompleted { scores, .. } = event {
            return match state {
                None => Err(Stop::Fail(ReplayError::EmptyJournal)),
                Some(before) => match adjust(scores, &before.scores) {
                    Some(adjusted) => Ok(adjusted),
                    None => Err(Stop::Fail(ReplayError::MissingScore)),
                },
            };
        }
        state = match script.state(Request::Apply(state, event))? {
            Ok(next) => Some(next),
            Err(reason) => return Err(Stop::Fail(ReplayError::Refused(reason.clone()))),
        };
        index = index + 1;
    }
    Ok(BTreeMap::new())
}

} // verus!
