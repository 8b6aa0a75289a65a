//! What the history of a game says, and what its final scoring adds.
use crate::game::{GameEvent, GameState, PlayerId, ReplayError, RuleProfile};
use crate::journal;
use crate::journal_laws::{self, Engine};
use crate::model::{self, Store, Workflow};
use crate::move_history::{self, Described, HistoryRow, MoveHistoryError, NamesView};
use crate::script::{self, Ask, Outcome, Reply, Run, Trace};
use crate::stages;
use crate::text;
use vstd::prelude::*;

verus! {

/// A player's public name is the first that is listed for the player, and the common name where
/// none is.
pub proof fn players_go_by_their_first_name(names: NamesView, player: PlayerId)
    ensures
        (forall|i: int| 0 <= i < names.named.len() ==> (#[trigger] names.named[i]).0 != player)
            ==> names.name(player) == names.otherwise,
        forall|first: int|
            0 <= first < names.named.len() && (#[trigger] names.named[first]).0 == player && (
            forall|i: int| 0 <= i < first ==> (#[trigger] names.named[i]).0 != player)
                ==> names.name(player) == names.named[first].1,
{
    if forall|i: int| 0 <= i < names.named.len() ==> (#[trigger] names.named[i]).0 != player {
        nobody_is_named(names, player, 0);
    }
    assert forall|first: int|
        0 <= first < names.named.len() && (#[trigger] names.named[first]).0 == player && (forall|
            i: int,
        |
            0 <= i < first ==> (#[trigger] names.named[i]).0 != player) implies names.name(player)
        == names.named[first].1 by {
        first_is_named(names, player, 0, first);
    }
}

proof fn nobody_is_named(names: NamesView, player: PlayerId, index: int)
    requires
        0 <= index <= names.named.len(),
        forall|i: int| 0 <= i < names.named.len() ==> (#[trigger] names.named[i]).0 != player,
    ensures
        names.name_from(player, index) == names.otherwise,
    decreases names.named.len() - index,
{
    if index < names.named.len() {
        assert(names.named[index].0 != player);
        nobody_is_named(names, player, index + 1);
    }
}

proof fn first_is_named(names: NamesView, player: PlayerId, index: int, first: int)
    requires
        0 <= index <= first < names.named.len(),
        names.named[first].0 == player,
        forall|i: int| 0 <= i < first ==> (#[trigger] names.named[i]).0 != player,
    ensures
        names.name_from(player, index) == names.named[first].1,
    decreases first - index,
{
    if index < first {
        assert(names.named[index].0 != player);
        first_is_named(names, player, index + 1, first);
    }
}

/// Working out what the final scoring added.
pub open spec fn adjusting(events: Seq<&GameEvent>) -> Workflow<Map<PlayerId, i64>, ReplayError> {
    |trace: Trace| move_history::adjustments_run(trace, None, events, 0)
}

/// The scores of a completion.
pub open spec fn final_scores(event: GameEvent) -> Map<PlayerId, u32> {
    event->GameCompleted_scores@
}

proof fn adjustments_from(
    trace: Trace,
    state: Option<GameState>,
    events: Seq<&GameEvent>,
    index: int,
    end: int,
)
    requires
        0 <= index <= end < events.len(),
        *events[end] is GameCompleted,
        forall|i: int| index <= i < end ==> !(*(#[trigger] events[i]) is GameCompleted),
        move_history::adjustments_run(trace, state, events, index).outcome is Done,
    ensures
        ({
            let adjusted = move_history::adjustments_run(
                trace,
                state,
                events,
                index,
            ).outcome->Done_0;
            let before = if end == index {
                state
            } else {
                script::reply_state(trace.replies[trace.at + end - index - 1])
            };
            &&& before is Some
            &&& adjusted.dom() == final_scores(*events[end]).dom()
            &&& forall|player: PlayerId| #[trigger]
                adjusted.contains_key(player) ==> before->0.scores@.contains_key(player)
                    && before->0.scores@[player] + adjusted[player] == final_scores(
                    *events[end],
                )[player]
        }),
    decreases end - index,
{
    let run = move_history::adjustments_run(trace, state, events, index);
    if index < end {
        assert(!(*events[index] is GameCompleted));
        let next = script::reply_state(trace.reply());
        adjustments_from(trace.next(), next, events, index + 1, end);
        if index + 1 < end {
            assert(trace.next().replies[trace.next().at + end - (index + 1) - 1]
                == trace.replies[trace.at + end - index - 1]);
        } else {
            assert(trace.reply() == trace.replies[trace.at + end - index - 1]);
        }
    } else {
        let adjusted = run.outcome->Done_0;
        let scores = final_scores(*events[end]);
        assert(adjusted.dom() =~= scores.dom());
    }
}

proof fn no_adjustments_from(
    trace: Trace,
    state: Option<GameState>,
    events: Seq<&GameEvent>,
    index: int,
)
    requires
        0 <= index <= events.len(),
        forall|i: int| index <= i < events.len() ==> !(*(#[trigger] events[i]) is GameCompleted),
        move_history::adjustments_run(trace, state, events, index).outcome is Done,
    ensures
        move_history::adjustments_run(trace, state, events, index).outcome->Done_0 == Map::<
            PlayerId,
            i64,
        >::empty(),
    decreases events.len() - index,
{
    if index < events.len() {
        assert(!(*events[index] is GameCompleted));
        no_adjustments_from(
            trace.next(),
            script::reply_state(trace.reply()),
            events,
            index + 1,
        );
    }
}

/// For every player of a completion, the score in the state before it and the player's adjustment
/// add up to the final score. `replies` are what the rules made of each event before it.
pub proof fn adjustments_lead_to_the_final_scores(
    events: Seq<&GameEvent>,
    end: int,
    replies: Seq<Reply>,
    adjusted: Map<PlayerId, i64>,
)
    requires
        0 <= end < events.len(),
        *events[end] is GameCompleted,
        forall|i: int| 0 <= i < end ==> !(*(#[trigger] events[i]) is GameCompleted),
        model::ending(adjusting(events), replies) == Outcome::<
            Map<PlayerId, i64>,
            ReplayError,
        >::Done(adjusted),
    ensures
        0 < end,
        script::reply_state(replies[end - 1]) is Some,
        forall|player: PlayerId|
            #![trigger adjusted.contains_key(player)]
            adjusted.contains_key(player) <==> final_scores(*events[end]).contains_key(player),
        forall|player: PlayerId| #[trigger]
            adjusted.contains_key(player) ==> script::reply_state(
                replies[end - 1],
            )->0.scores@.contains_key(player) && script::reply_state(
                replies[end - 1],
            )->0.scores@[player] + adjusted[player] == final_scores(*events[end])[player],
{
    adjustments_from(Trace { replies, at: 0 }, None, events, 0, end);
    assert forall|player: PlayerId|
        #![trigger adjusted.contains_key(player)]
        adjusted.contains_key(player) <==> final_scores(*events[end]).contains_key(player) by {
        assert(adjusted.dom().contains(player) == final_scores(*events[end]).dom().contains(
            player,
        ));
    }
}

/// A game without a final scoring has no adjustments.
pub proof fn open_games_have_no_adjustments(
    events: Seq<&GameEvent>,
    replies: Seq<Reply>,
    adjusted: Map<PlayerId, i64>,
)
    requires
        forall|i: int| 0 <= i < events.len() ==> !(*(#[trigger] events[i]) is GameCompleted),
        model::ending(adjusting(events), replies) == Outcome::<
            Map<PlayerId, i64>,
            ReplayError,
        >::Done(adjusted),
    ensures
        adjusted == Map::<PlayerId, i64>::empty(),
{
    no_adjustments_from(Trace { replies, at: 0 }, None, events, 0);
}

/// Telling the history of a game.
pub open spec fn telling(
    state: Option<GameState>,
    events: Seq<&GameEvent>,
    rules: RuleProfile,
    names: NamesView,
    index: int,
    told: Seq<HistoryRow>,
) -> Workflow<Seq<HistoryRow>, MoveHistoryError> {
    |trace: Trace| move_history::tell_run(trace, state, events, rules, names, index, told)
}

/// The words that a play makes in a state.
pub type Words = spec_fn(GameState, GameEvent) -> Seq<Seq<char>>;

/// Wherever an event is applied or a play analyzed, it is by the rules.
pub open spec fn told_by(engine: Engine, words_of: Words) -> spec_fn(Ask, Reply) -> bool {
    |ask: Ask, reply: Reply|
        match ask {
            Ask::Apply(state, event) => script::reply_state(reply) matches Some(next) ==> next
                == engine(state, event),
            Ask::Analyze(state, event, rules) => script::reply_words(reply) matches Some(words)
                ==> words == words_of(state, event),
            _ => true,
        }
}

/// Whether a row of history says in words what an event was.
pub open spec fn says(
    row: HistoryRow,
    event: GameEvent,
    words: Seq<Seq<char>>,
    names: NamesView,
) -> bool {
    match event {
        GameEvent::GameStarted { .. } => row.kind == "GAME_STARTED"@ && row.description
            == "Game started."@ && row.played_words.len() == 0,
        GameEvent::TilesPlayed { player_id, score, .. } => row.kind == "TILES_PLAYED"@
            && row.played_words == words && row.description == names.name(player_id) + " played "@
            + text::joined_with(words, ", "@) + " for "@ + text::decimal(score as nat)
            + " points."@,
        GameEvent::TilesExchanged { player_id, returned, .. } => row.kind == "TILES_EXCHANGED"@
            && row.played_words.len() == 0 && row.description == names.name(player_id)
            + " exchanged "@ + text::decimal(returned@.len()) + " tile"@ + (if returned@.len()
            == 1 {
            ""@
        } else {
            "s"@
        }) + "."@,
        GameEvent::TurnPassed { player_id } => row.kind == "TURN_PASSED"@
            && row.played_words.len() == 0 && row.description == names.name(player_id)
            + " passed."@,
        GameEvent::GameResigned { player_id, winner } => row.kind == "GAME_RESIGNED"@
            && row.played_words.len() == 0 && row.description == match winner {
            Some(winner) => names.name(player_id) + " resigned; "@ + names.name(winner) + " won."@,
            None => names.name(player_id) + " resigned."@,
        },
        GameEvent::GameCompleted { winner, .. } => row.kind == "GAME_COMPLETED"@
            && row.played_words.len() == 0 && row.description == match winner {
            Some(winner) => "Game completed; "@ + names.name(winner) + " won."@,
            None => "Game completed in a tie."@,
        },
    }
}

/// Whether a row of history gives the revision of a state and every player's name and score, in
/// seat order.
pub open spec fn scores(row: HistoryRow, state: GameState, names: NamesView) -> bool {
    &&& row.revision == state.revision
    &&& forall|parts: Seq<Seq<char>>|
        parts.len() == state.players@.len() && (forall|i: int|
            0 <= i < parts.len() ==> #[trigger] parts[i] == names.name(state.players@[i]) + " "@
                + text::decimal(state.scores@[state.players@[i]] as nat)) ==> row.score_summary
            == #[trigger] text::joined_with(parts, " – "@)
}

/// The state before the event at `index`.
pub open spec fn state_before(engine: Engine, events: Seq<&GameEvent>, index: int) -> Option<
    GameState,
> {
    journal_laws::replayed(engine, None, journal::event_values(events).take(index))
}

/// Whether a row tells the event at `index`.
pub open spec fn row_tells(
    row: HistoryRow,
    events: Seq<&GameEvent>,
    index: int,
    names: NamesView,
    engine: Engine,
    words_of: Words,
) -> bool {
    &&& says(
        row,
        *events[index],
        words_of(state_before(engine, events, index)->0, *events[index]),
        names,
    )
    &&& scores(row, state_before(engine, events, index + 1)->0, names)
}

spec fn told_on(
    described: Described,
    state: Option<GameState>,
    events: Seq<&GameEvent>,
    rules: RuleProfile,
    names: NamesView,
    index: int,
    told: Seq<HistoryRow>,
) -> spec_fn(Reply, Trace) -> Run<Seq<HistoryRow>, MoveHistoryError> {
    |reply: Reply, trace: Trace|
        match reply {
            Reply::Refused(reason) => script::fail(
                trace,
                MoveHistoryError::Replay(ReplayError::Refused(reason)),
            ),
            reply => match script::reply_state(reply) {
                Some(next) => if next.scored() {
                    move_history::tell_run(
                        trace,
                        Some(next),
                        events,
                        rules,
                        names,
                        index + 1,
                        told.push(
                            HistoryRow {
                                revision: next.revision,
                                kind: described.kind,
                                description: described.description,
                                played_words: described.played_words,
                                score_summary: move_history::score_summary_of(next, names),
                            },
                        ),
                    )
                } else {
                    script::fail(trace, MoveHistoryError::Replay(ReplayError::MissingScore))
                },
                None => Run { outcome: Outcome::Mismatch(trace.at - 1), trace },
            },
        }
}

spec fn applying(
    described: Described,
    state: Option<GameState>,
    events: Seq<&GameEvent>,
    rules: RuleProfile,
    names: NamesView,
    index: int,
    told: Seq<HistoryRow>,
) -> Workflow<Seq<HistoryRow>, MoveHistoryError> {
    |trace: Trace|
        if trace.spent() {
            Run { outcome: Outcome::Wait(Ask::Apply(state, *events[index])), trace }
        } else {
            told_on(described, state, events, rules, names, index, told)(
                trace.reply(),
                trace.next(),
            )
        }
}

spec fn analyzed(
    state: GameState,
    events: Seq<&GameEvent>,
    rules: RuleProfile,
    names: NamesView,
    index: int,
    told: Seq<HistoryRow>,
) -> spec_fn(Reply, Trace) -> Run<Seq<HistoryRow>, MoveHistoryError> {
    |reply: Reply, trace: Trace|
        match reply {
            Reply::Refused(reason) => script::fail(trace, MoveHistoryError::Analysis(reason)),
            reply => match script::reply_words(reply) {
                Some(words) => applying(
                    Described {
                        kind: "TILES_PLAYED"@,
                        description: move_history::played_sentence(
                            names.name(events[index]->TilesPlayed_player_id),
                            words,
                            events[index]->TilesPlayed_score,
                        ),
                        played_words: words,
                    },
                    Some(state),
                    events,
                    rules,
                    names,
                    index,
                    told,
                )(trace),
                None => Run { outcome: Outcome::Mismatch(trace.at - 1), trace },
            },
        }
}

proof fn analysis_comes_first(
    state: GameState,
    events: Seq<&GameEvent>,
    rules: RuleProfile,
    names: NamesView,
    index: int,
    told: Seq<HistoryRow>,
    trace: Trace,
)
    requires
        0 <= index < events.len(),
        *events[index] is TilesPlayed,
    ensures
        telling(Some(state), events, rules, names, index, told)(trace) == (if trace.spent() {
            Run {
                outcome: Outcome::<Seq<HistoryRow>, MoveHistoryError>::Wait(
                    Ask::Analyze(state, *events[index], rules),
                ),
                trace,
            }
        } else {
            analyzed(state, events, rules, names, index, told)(trace.reply(), trace.next())
        }),
{
}

proof fn application_comes_next(
    described: Described,
    state: Option<GameState>,
    events: Seq<&GameEvent>,
    rules: RuleProfile,
    names: NamesView,
    index: int,
    told: Seq<HistoryRow>,
    trace: Trace,
)
    requires
        0 <= index < events.len(),
        !(state is Some && *events[index] is TilesPlayed),
        move_history::plain_description(state is Some, *events[index], names) == Some(described),
    ensures
        telling(state, events, rules, names, index, told)(trace) == applying(
            described,
            state,
            events,
            rules,
            names,
            index,
            told,
        )(trace),
{
}

/// The state after the event at `index`.
proof fn state_follows(engine: Engine, events: Seq<&GameEvent>, index: int)
    requires
        0 <= index < events.len(),
    ensures
        state_before(engine, events, index + 1) == Some(
            engine(state_before(engine, events, index), *events[index]),
        ),
{
    let values = journal::event_values(events);
    assert(values.take(index + 1).drop_last() =~= values.take(index));
    assert(values.take(index + 1).last() == *events[index]);
}

/// One event that has been described is told, and the telling goes on.
proof fn event_is_told(
    described: Described,
    events: Seq<&GameEvent>,
    rules: RuleProfile,
    names: NamesView,
    index: int,
    told: Seq<HistoryRow>,
    engine: Engine,
    words_of: Words,
    replies: Seq<Reply>,
    from: int,
    store: Store,
)
    requires
        0 <= index < events.len(),
        told.len() == index,
        forall|i: int|
            0 <= i < told.len() ==> row_tells(
                #[trigger] told[i],
                events,
                i,
                names,
                engine,
                words_of,
            ),
        forall|row: HistoryRow|
            row.kind == described.kind && row.description == described.description
                && row.played_words == described.played_words ==> #[trigger] says(
                row,
                *events[index],
                words_of(state_before(engine, events, index)->0, *events[index]),
                names,
            ),
        stages::underway(
            applying(
                described,
                state_before(engine, events, index),
                events,
                rules,
                names,
                index,
                told,
            ),
            replies,
            from,
            store,
            told_by(engine, words_of),
        ),
        applying(
            described,
            state_before(engine, events, index),
            events,
            rules,
            names,
            index,
            told,
        )(Trace { replies, at: from }).outcome is Done,
    ensures
        ({
            let rows = applying(
                described,
                state_before(engine, events, index),
                events,
                rules,
                names,
                index,
                told,
            )(Trace { replies, at: from }).outcome->Done_0;
            &&& rows.len() == events.len()
            &&& forall|i: int|
                0 <= i < rows.len() ==> row_tells(
                    #[trigger] rows[i],
                    events,
                    i,
                    names,
                    engine,
                    words_of,
                )
        }),
    decreases events.len() - index, 0int,
{
    let fits = told_by(engine, words_of);
    let state = state_before(engine, events, index);
    let stage = applying(described, state, events, rules, names, index, told);
    let ask = Ask::Apply(state, *events[index]);
    let rest = told_on(described, state, events, rules, names, index, told);
    assert forall|trace: Trace| #[trigger] stage(trace) == (if trace.spent() {
        Run { outcome: Outcome::Wait(ask), trace }
    } else {
        rest(trace.reply(), trace.next())
    }) by {}
    stages::asks_outside(stage, ask, rest, replies, from, store, fits);
    let next = script::reply_state(replies[from])->0;
    state_follows(engine, events, index);
    assert(state_before(engine, events, index + 1) == Some(next));
    let row = HistoryRow {
        revision: next.revision,
        kind: described.kind,
        description: described.description,
        played_words: described.played_words,
        score_summary: move_history::score_summary_of(next, names),
    };
    assert(says(
        row,
        *events[index],
        words_of(state_before(engine, events, index)->0, *events[index]),
        names,
    ));
    assert(scores(row, next, names)) by {
        let own = Seq::new(
            next.players@.len(),
            |i: int|
                names.name(next.players@[i]) + " "@ + text::decimal(
                    next.scores@[next.players@[i]] as nat,
                ),
        );
        assert forall|parts: Seq<Seq<char>>|
            parts.len() == next.players@.len() && (forall|i: int|
                0 <= i < parts.len() ==> #[trigger] parts[i] == names.name(next.players@[i])
                    + " "@ + text::decimal(
                    next.scores@[next.players@[i]] as nat,
                )) implies row.score_summary == #[trigger] text::joined_with(parts, " – "@) by {
            assert(parts =~= own);
        }
    }
    let second: Workflow<Seq<HistoryRow>, MoveHistoryError> = |trace: Trace|
        rest(replies[from], trace);
    assert(second(Trace { replies, at: from + 1 }).outcome is Done);
    let going = telling(Some(next), events, rules, names, index + 1, told.push(row));
    assert(second =~= going);
    telling_goes_on(
        events,
        rules,
        names,
        index + 1,
        told.push(row),
        engine,
        words_of,
        replies,
        from + 1,
        store,
    );
}

/// The events from `index` on are told.
proof fn telling_goes_on(
    events: Seq<&GameEvent>,
    rules: RuleProfile,
    names: NamesView,
    index: int,
    told: Seq<HistoryRow>,
    engine: Engine,
    words_of: Words,
    replies: Seq<Reply>,
    from: int,
    store: Store,
)
    requires
        0 <= index <= events.len(),
        told.len() == index,
        forall|i: int|
            0 <= i < told.len() ==> row_tells(
                #[trigger] told[i],
                events,
                i,
                names,
                engine,
                words_of,
            ),
        stages::underway(
            telling(state_before(engine, events, index), events, rules, names, index, told),
            replies,
            from,
            store,
            told_by(engine, words_of),
        ),
        telling(state_before(engine, events, index), events, rules, names, index, told)(
            Trace { replies, at: from },
        ).outcome is Done,
    ensures
        ({
            let rows = telling(
                state_before(engine, events, index),
                events,
                rules,
                names,
                index,
                told,
            )(Trace { replies, at: from }).outcome->Done_0;
            &&& rows.len() == events.len()
            &&& forall|i: int|
                0 <= i < rows.len() ==> row_tells(
                    #[trigger] rows[i],
                    events,
                    i,
                    names,
                    engine,
                    words_of,
                )
        }),
    decreases events.len() - index, 1int,
{
    let fits = told_by(engine, words_of);
    let state = state_before(engine, events, index);
    let stage = telling(state, events, rules, names, index, told);
    let start = Trace { replies, at: from };
    if index < events.len() {
        let event = *events[index];
        if state is Some && event is TilesPlayed {
            let ask = Ask::Analyze(state->0, event, rules);
            let rest = analyzed(state->0, events, rules, names, index, told);
            assert forall|trace: Trace| #[trigger] stage(trace) == (if trace.spent() {
                Run { outcome: Outcome::Wait(ask), trace }
            } else {
                rest(trace.reply(), trace.next())
            }) by {
                analysis_comes_first(state->0, events, rules, names, index, told, trace);
            }
            stages::asks_outside(stage, ask, rest, replies, from, store, fits);
            let second: Workflow<Seq<HistoryRow>, MoveHistoryError> = |trace: Trace|
                rest(replies[from], trace);
            assert(second(Trace { replies, at: from + 1 }).outcome is Done);
            let words = script::reply_words(replies[from])->0;
            let described = Described {
                kind: "TILES_PLAYED"@,
                description: move_history::played_sentence(
                    names.name(event->TilesPlayed_player_id),
                    words,
                    event->TilesPlayed_score,
                ),
                played_words: words,
            };
            let next = applying(described, state, events, rules, names, index, told);
            assert(second =~= next);
            event_is_told(
                described,
                events,
                rules,
                names,
                index,
                told,
                engine,
                words_of,
                replies,
                from + 1,
                store,
            );
        } else {
            let described = move_history::plain_description(state is Some, event, names)->0;
            assert(move_history::plain_description(state is Some, event, names) is Some);
            let next = applying(described, state, events, rules, names, index, told);
            assert forall|trace: Trace| #[trigger] stage(trace) == next(trace) by {
                application_comes_next(
                    described,
                    state,
                    events,
                    rules,
                    names,
                    index,
                    told,
                    trace,
                );
            }
            stages::same_underway(stage, next, replies, from, store, fits);
            event_is_told(
                described,
                events,
                rules,
                names,
                index,
                told,
                engine,
                words_of,
                replies,
                from,
                store,
            );
        }
    }
}

/// A history that is told has one row for each event, in their order: each says in words what the
/// event was, and gives the revision and everybody's score behind it.
pub proof fn histories_tell_every_event(
    events: Seq<&GameEvent>,
    rules: RuleProfile,
    names: NamesView,
    engine: Engine,
    words_of: Words,
    replies: Seq<Reply>,
    store: Store,
    rows: Seq<HistoryRow>,
)
    requires
        model::served(telling(None, events, rules, names, 0, Seq::empty()), replies, store),
        stages::met(
            telling(None, events, rules, names, 0, Seq::empty()),
            replies,
            told_by(engine, words_of),
        ),
        model::ending(telling(None, events, rules, names, 0, Seq::empty()), replies) == Outcome::<
            Seq<HistoryRow>,
            MoveHistoryError,
        >::Done(rows),
    ensures
        rows.len() == events.len(),
        forall|i: int|
            0 <= i < rows.len() ==> row_tells(
                #[trigger] rows[i],
                events,
                i,
                names,
                engine,
                words_of,
            ),
{
    let workflow = telling(None, events, rules, names, 0, Seq::empty());
    stages::whole_is_underway(workflow, replies, store, told_by(engine, words_of));
    assert(journal::event_values(events).take(0) =~= Seq::empty());
    assert(state_before(engine, events, 0) == None::<GameState>);
    telling_goes_on(
        events,
        rules,
        names,
        0,
        Seq::empty(),
        engine,
        words_of,
        replies,
        0,
        store,
    );
}

} // verus!
