//! Workflows as functions of the replies they have received.
//!
//! A workflow never performs outside work itself. It runs over a [`Script`]: the replies received
//! so far. When it needs work whose reply is not there yet it stops and names the [`Request`]; the
//! caller carries the request out, appends the reply, and runs the workflow again. A workflow is
//! therefore an ordinary function, and its contract says for every list of replies what it asks
//! next or how it ends.
use crate::definitions::{DefinitionError, WordDefinition};
use crate::game::{
    GameCommand, GameEvent, GameId, GameState, PlayerId, RuleProfile, RuleProfileRef, Span,
    Timestamp,
};
use crate::oidc::{GoogleOidcError, KeysView, OidcAnswer, ProviderKeys};
use crate::store::{Op, Row, Statement};
use vstd::prelude::*;

verus! {

/// What a game is created from.
#[derive(Debug)]
pub struct GameSetup<'a> {
    pub game_id: GameId,
    pub players: Vec<PlayerId>,
    pub first_player: PlayerId,
    pub rules: &'a RuleProfile,
    pub dictionary: DictionaryPin,
    pub created_at: Timestamp,
    pub shuffle_seed: u64,
}

/// The mathematical content of a [`GameSetup`].
#[verifier::ext_equal]
pub struct SetupView {
    pub game_id: GameId,
    pub players: Seq<PlayerId>,
    pub first_player: PlayerId,
    pub rules: RuleProfile,
    pub dictionary: PinView,
    pub created_at: Timestamp,
    pub shuffle_seed: u64,
}

impl<'a> View for GameSetup<'a> {
    type V = SetupView;

    open spec fn view(&self) -> SetupView {
        SetupView {
            game_id: self.game_id,
            players: self.players@,
            first_player: self.first_player,
            rules: *self.rules,
            dictionary: self.dictionary@,
            created_at: self.created_at,
            shuffle_seed: self.shuffle_seed,
        }
    }
}

/// The choices from which rules are generated.
#[derive(Debug, Clone, Copy, PartialEq, Eq, Structural)]
pub struct RuleChoices {
    pub board_size: u8,
    pub tile_set_count: u8,
}

/// The word list that a new game is pinned to.
#[derive(Debug, Clone, Copy)]
pub struct DictionaryPin {
    pub id: &'static str,
    pub version: u32,
    pub checksum: &'static str,
}

/// The mathematical content of a [`DictionaryPin`].
#[verifier::ext_equal]
pub struct PinView {
    pub id: Seq<char>,
    pub version: u32,
    pub checksum: Seq<char>,
}

impl View for DictionaryPin {
    type V = PinView;

    open spec fn view(&self) -> PinView {
        PinView { id: self.id@, version: self.version, checksum: self.checksum@ }
    }
}

/// Outside work that a workflow waits for.
#[derive(Debug)]
pub enum Request<'a> {
    /// Run one statement.
    Store(Statement),
    /// Write an event in the current payload format.
    EncodeEvent(&'a GameEvent),
    /// Read an event that was written in payload format `version`, one of the known ones.
    DecodeEvent { version: u64, payload: String },
    /// Write a state in the current payload format.
    EncodeState(&'a GameState),
    /// Read a state that was written in payload format `version`, one of the known ones.
    DecodeState { version: u64, payload: String },
    /// Apply an event to a state, or to no state where the game is yet to start.
    Apply(Option<&'a GameState>, &'a GameEvent),
    /// Decide a command of `actor` under the state's own rules and word list.
    Decide { state: &'a GameState, actor: PlayerId, command: &'a GameCommand },
    /// Name the words that a committed play forms on the board of `state` under `rules`.
    Analyze { state: &'a GameState, event: &'a GameEvent, rules: &'a RuleProfile },
    /// Check that a word list is a valid reference.
    PinDictionary(DictionaryPin),
    /// Find the word list that the state's metadata names.
    FindDictionary(&'a GameState),
    /// Find the complete rules that a reference names.
    FindRules(&'a RuleProfileRef),
    /// The rules of a classic game.
    InitialRules,
    /// Generate rules from choices.
    GenerateRules(RuleChoices),
    /// Deal a new game.
    Initialize(GameSetup<'a>),
    /// Draw this many fresh random identities.
    FreshIds(usize),
    /// Draw this many fresh random bytes.
    FreshBytes(usize),
    /// Hash a password with a fresh salt.
    HashPassword(String),
    /// Issue a session for a user.
    IssueSession { user_id: String, now: Timestamp, lifetime: Span },
    /// Find the user of a session token.
    ResolveSession { token: String, now: Timestamp },
    /// Exchange an authorization code at the provider for an ID token.
    ExchangeCode { code: String, verifier: String },
    /// Hand over the provider's keys and the time, with the keys discovered anew where `fresh`.
    FindKeys { fresh: bool },
    /// Normalize a played word.
    NormalizeWord(String),
    /// Hold the exclusive right to look up this cache entry until the workflow ends.
    HoldLookup(String),
    /// Look a normalized word up at the provider.
    LookUpWord(String),
    /// Write a definition for the cache.
    EncodeDefinition(&'a WordDefinition),
    /// Read a cached definition.
    DecodeDefinition(String),
}

/// The mathematical content of a [`Request`].
#[verifier::ext_equal]
pub enum Ask {
    Store(Op),
    EncodeEvent(GameEvent),
    DecodeEvent(u64, Seq<char>),
    EncodeState(GameState),
    DecodeState(u64, Seq<char>),
    Apply(Option<GameState>, GameEvent),
    Decide(GameState, PlayerId, GameCommand),
    Analyze(GameState, GameEvent, RuleProfile),
    PinDictionary(PinView),
    FindDictionary(GameState),
    FindRules(RuleProfileRef),
    InitialRules,
    GenerateRules(RuleChoices),
    Initialize(SetupView),
    FreshIds(int),
    FreshBytes(int),
    HashPassword(Seq<char>),
    IssueSession(Seq<char>, Timestamp, Span),
    ResolveSession(Seq<char>, Timestamp),
    ExchangeCode(Seq<char>, Seq<char>),
    FindKeys(bool),
    NormalizeWord(Seq<char>),
    HoldLookup(Seq<char>),
    LookUpWord(Seq<char>),
    EncodeDefinition(WordDefinition),
    DecodeDefinition(Seq<char>),
}

impl<'a> View for Request<'a> {
    type V = Ask;

    open spec fn view(&self) -> Ask {
        match self {
            Request::Store(statement) => Ask::Store(statement@),
            Request::EncodeEvent(event) => Ask::EncodeEvent(**event),
            Request::DecodeEvent { version, payload } => Ask::DecodeEvent(*version, payload@),
            Request::EncodeState(state) => Ask::EncodeState(**state),
            Request::DecodeState { version, payload } => Ask::DecodeState(*version, payload@),
            Request::Apply(state, event) => Ask::Apply(owned(*state), **event),
            Request::Decide { state, actor, command } => Ask::Decide(**state, *actor, **command),
            Request::Analyze { state, event, rules } => Ask::Analyze(**state, **event, **rules),
            Request::PinDictionary(pin) => Ask::PinDictionary(pin@),
            Request::FindDictionary(state) => Ask::FindDictionary(**state),
            Request::FindRules(reference) => Ask::FindRules(**reference),
            Request::InitialRules => Ask::InitialRules,
            Request::GenerateRules(choices) => Ask::GenerateRules(*choices),
            Request::Initialize(setup) => Ask::Initialize(setup@),
            Request::FreshIds(count) => Ask::FreshIds(*count as int),
            Request::FreshBytes(count) => Ask::FreshBytes(*count as int),
            Request::HashPassword(password) => Ask::HashPassword(password@),
            Request::IssueSession { user_id, now, lifetime } => Ask::IssueSession(
                user_id@,
                *now,
                *lifetime,
            ),
            Request::ResolveSession { token, now } => Ask::ResolveSession(token@, *now),
            Request::ExchangeCode { code, verifier } => Ask::ExchangeCode(code@, verifier@),
            Request::FindKeys { fresh } => Ask::FindKeys(*fresh),
            Request::NormalizeWord(word) => Ask::NormalizeWord(word@),
            Request::HoldLookup(entry) => Ask::HoldLookup(entry@),
            Request::LookUpWord(word) => Ask::LookUpWord(word@),
            Request::EncodeDefinition(definition) => Ask::EncodeDefinition(**definition),
            Request::DecodeDefinition(payload) => Ask::DecodeDefinition(payload@),
        }
    }
}

/// An optional reference as an optional value.
pub open spec fn owned<T>(value: Option<&T>) -> Option<T> {
    match value {
        Some(value) => Some(*value),
        None => None,
    }
}

/// What was given, or why not, without references.
pub open spec fn given<T>(value: Result<&T, &String>) -> Result<T, String> {
    match value {
        Ok(value) => Ok(*value),
        Err(reason) => Err(*reason),
    }
}

/// The text that was given, or why not.
pub open spec fn given_text(text: Result<&String, &String>) -> Result<Seq<char>, String> {
    match text {
        Ok(text) => Ok(text@),
        Err(reason) => Err(*reason),
    }
}

/// What was given, if anything was.
pub open spec fn kept<T>(value: Result<T, String>) -> Option<T> {
    match value {
        Ok(value) => Some(value),
        Err(_) => None,
    }
}

/// The reply to one request.
#[derive(Debug)]
pub enum Reply {
    /// The rows that a statement found or wrote.
    Rows(Vec<Row>),
    Text(String),
    Event(GameEvent),
    Events(Vec<GameEvent>),
    State(GameState),
    Rules(RuleProfile),
    Words(Vec<String>),
    Ids(Vec<u128>),
    Bytes(Vec<u8>),
    Definition(WordDefinition),
    /// The provider knows no definition.
    NoDefinition,
    /// The provider could not answer.
    ProviderError(DefinitionError),
    /// The identity provider's keys and the time.
    Keys(ProviderKeys),
    /// The identity provider failed.
    OidcError(GoogleOidcError),
    /// The request was met and there is nothing to hand over.
    Accepted,
    /// The request cannot be met: malformed payload, illegal command, unknown reference. The text
    /// says why, in the words of whoever refused.
    Refused(String),
    /// The store failed, and how.
    Failed(String),
}

/// Why a workflow did not reach its end.
#[derive(Debug)]
pub enum Stop<'a, E> {
    /// It waits for the reply to this request.
    Wait(Request<'a>),
    /// The store failed on the request with this number.
    Failed(usize),
    /// The reply with this number is of a kind that its request does not have.
    Mismatch(usize),
    /// The workflow itself ended in an error.
    Fail(E),
}

/// The replies received so far and how many of them the workflow has used.
#[derive(Debug)]
pub struct Script<'a> {
    replies: &'a Vec<Reply>,
    at: usize,
}

/// The mathematical content of a [`Script`].
#[verifier::ext_equal]
pub struct Trace {
    pub replies: Seq<Reply>,
    pub at: int,
}

impl<'a> View for Script<'a> {
    type V = Trace;

    closed spec fn view(&self) -> Trace {
        Trace { replies: self.replies@, at: self.at as int }
    }
}

impl Trace {
    pub open spec fn next(self) -> Trace {
        Trace { at: self.at + 1, ..self }
    }

    /// Whether the next reply is not there yet.
    pub open spec fn spent(self) -> bool {
        self.at >= self.replies.len()
    }

    pub open spec fn reply(self) -> Reply {
        self.replies[self.at]
    }
}

/// How a workflow ended on the replies it was given.
pub enum Outcome<T, E> {
    Wait(Ask),
    Failed(int),
    Mismatch(int),
    Fail(E),
    Done(T),
}

/// How a workflow ended, and the script as it left it.
pub struct Run<T, E> {
    pub outcome: Outcome<T, E>,
    pub trace: Trace,
}

pub open spec fn done<T, E>(trace: Trace, value: T) -> Run<T, E> {
    Run { outcome: Outcome::Done(value), trace }
}

pub open spec fn fail<T, E>(trace: Trace, error: E) -> Run<T, E> {
    Run { outcome: Outcome::Fail(error), trace }
}

/// The run that an executed workflow shows, with its result taken by `content`.
pub open spec fn ran<T, V, E>(
    result: Result<T, Stop<'_, E>>,
    trace: Trace,
    content: spec_fn(T) -> V,
) -> Run<V, E> {
    Run {
        outcome: match result {
            Ok(value) => Outcome::Done(content(value)),
            Err(Stop::Wait(request)) => Outcome::Wait(request@),
            Err(Stop::Failed(number)) => Outcome::Failed(number as int),
            Err(Stop::Mismatch(number)) => Outcome::Mismatch(number as int),
            Err(Stop::Fail(error)) => Outcome::Fail(error),
        },
        trace,
    }
}

/// The same run with its error taken by `wrap`.
pub open spec fn lift<T, E, F>(run: Run<T, E>, wrap: spec_fn(E) -> F) -> Run<T, F> {
    Run {
        outcome: match run.outcome {
            Outcome::Wait(ask) => Outcome::Wait(ask),
            Outcome::Failed(number) => Outcome::Failed(number),
            Outcome::Mismatch(number) => Outcome::Mismatch(number),
            Outcome::Fail(error) => Outcome::Fail(wrap(error)),
            Outcome::Done(value) => Outcome::Done(value),
        },
        trace: run.trace,
    }
}

/// The same run with its result taken by `content`.
pub open spec fn reshape<T, U, E>(run: Run<T, E>, content: spec_fn(T) -> U) -> Run<U, E> {
    chain(run, |value: T, trace: Trace| done(trace, content(value)))
}

/// `run` and, where it ends in a result, `rest`.
pub open spec fn chain<T, U, E>(run: Run<T, E>, rest: spec_fn(T, Trace) -> Run<U, E>) -> Run<U, E> {
    match run.outcome {
        Outcome::Done(value) => rest(value, run.trace),
        Outcome::Wait(ask) => Run { outcome: Outcome::Wait(ask), trace: run.trace },
        Outcome::Failed(number) => Run { outcome: Outcome::Failed(number), trace: run.trace },
        Outcome::Mismatch(number) => Run { outcome: Outcome::Mismatch(number), trace: run.trace },
        Outcome::Fail(error) => Run { outcome: Outcome::Fail(error), trace: run.trace },
    }
}

/// Run one statement and go on with its rows.
pub open spec fn query<T, E>(
    trace: Trace,
    op: Op,
    rest: spec_fn(Seq<Row>, Trace) -> Run<T, E>,
) -> Run<T, E> {
    if trace.spent() {
        Run { outcome: Outcome::Wait(Ask::Store(op)), trace }
    } else {
        match trace.reply() {
            Reply::Rows(rows) => rest(rows@, trace.next()),
            Reply::Failed(_) => Run { outcome: Outcome::Failed(trace.at), trace: trace.next() },
            _ => Run { outcome: Outcome::Mismatch(trace.at), trace: trace.next() },
        }
    }
}

/// Run one statement whose rows do not matter.
pub open spec fn perform<T, E>(
    trace: Trace,
    op: Op,
    rest: spec_fn(Trace) -> Run<T, E>,
) -> Run<T, E> {
    query(trace, op, |rows: Seq<Row>, trace: Trace| rest(trace))
}

/// Make one request that is answered by what `read` takes from a reply, or refused for a reason.
pub open spec fn consult<R, T, E>(
    trace: Trace,
    ask: Ask,
    read: spec_fn(Reply) -> Option<R>,
    rest: spec_fn(Result<R, String>, Trace) -> Run<T, E>,
) -> Run<T, E> {
    if trace.spent() {
        Run { outcome: Outcome::Wait(ask), trace }
    } else {
        match trace.reply() {
            Reply::Refused(reason) => rest(Err(reason), trace.next()),
            reply => match read(reply) {
                Some(value) => rest(Ok(value), trace.next()),
                None => Run { outcome: Outcome::Mismatch(trace.at), trace: trace.next() },
            },
        }
    }
}

/// Find the user of a session token, if it has one, and go on.
pub open spec fn resolve_session<T, E>(
    trace: Trace,
    token: Seq<char>,
    now: Timestamp,
    rest: spec_fn(Option<Seq<char>>, Trace) -> Run<T, E>,
) -> Run<T, E> {
    if trace.spent() {
        Run { outcome: Outcome::Wait(Ask::ResolveSession(token, now)), trace }
    } else {
        match trace.reply() {
            Reply::Text(user) => rest(Some(user@), trace.next()),
            Reply::Refused(_) => rest(None, trace.next()),
            Reply::Failed(_) => Run { outcome: Outcome::Failed(trace.at), trace: trace.next() },
            _ => Run { outcome: Outcome::Mismatch(trace.at), trace: trace.next() },
        }
    }
}

/// Draw `count` fresh identities and go on with them.
pub open spec fn draw<T, E>(
    trace: Trace,
    count: int,
    rest: spec_fn(Seq<u128>, Trace) -> Run<T, E>,
) -> Run<T, E> {
    if trace.spent() {
        Run { outcome: Outcome::Wait(Ask::FreshIds(count)), trace }
    } else {
        match trace.reply() {
            Reply::Ids(ids) if ids@.len() == count => rest(ids@, trace.next()),
            _ => Run { outcome: Outcome::Mismatch(trace.at), trace: trace.next() },
        }
    }
}

/// Draw `count` fresh bytes and go on with them.
pub open spec fn draw_bytes<T, E>(
    trace: Trace,
    count: int,
    rest: spec_fn(Seq<u8>, Trace) -> Run<T, E>,
) -> Run<T, E> {
    if trace.spent() {
        Run { outcome: Outcome::Wait(Ask::FreshBytes(count)), trace }
    } else {
        match trace.reply() {
            Reply::Bytes(bytes) if bytes@.len() == count => rest(bytes@, trace.next()),
            _ => Run { outcome: Outcome::Mismatch(trace.at), trace: trace.next() },
        }
    }
}

/// What a definition provider answers.
pub enum ProviderAnswer {
    Found(WordDefinition),
    Missing,
    Failed(DefinitionError),
}

pub open spec fn reply_answer(reply: Reply) -> Option<ProviderAnswer> {
    match reply {
        Reply::Definition(definition) => Some(ProviderAnswer::Found(definition)),
        Reply::NoDefinition => Some(ProviderAnswer::Missing),
        Reply::ProviderError(error) => Some(ProviderAnswer::Failed(error)),
        _ => None,
    }
}

pub open spec fn reply_definition(reply: Reply) -> Option<WordDefinition> {
    match reply {
        Reply::Definition(definition) => Some(definition),
        _ => None,
    }
}

pub open spec fn reply_text(reply: Reply) -> Option<Seq<char>> {
    match reply {
        Reply::Text(text) => Some(text@),
        _ => None,
    }
}

pub open spec fn reply_event(reply: Reply) -> Option<GameEvent> {
    match reply {
        Reply::Event(event) => Some(event),
        _ => None,
    }
}

pub open spec fn reply_events(reply: Reply) -> Option<Seq<GameEvent>> {
    match reply {
        Reply::Events(events) => Some(events@),
        _ => None,
    }
}

pub open spec fn reply_state(reply: Reply) -> Option<GameState> {
    match reply {
        Reply::State(state) => Some(state),
        _ => None,
    }
}

pub open spec fn reply_rules(reply: Reply) -> Option<RuleProfile> {
    match reply {
        Reply::Rules(rules) => Some(rules),
        _ => None,
    }
}

pub open spec fn reply_words(reply: Reply) -> Option<Seq<Seq<char>>> {
    match reply {
        Reply::Words(words) => Some(crate::text::texts_view(words@)),
        _ => None,
    }
}

pub open spec fn reply_accepted(reply: Reply) -> Option<()> {
    match reply {
        Reply::Accepted => Some(()),
        _ => None,
    }
}

impl<'a> Script<'a> {
    /// A script from its beginning.
    pub fn new(replies: &'a Vec<Reply>) -> (script: Script<'a>)
        ensures
            script@ == (Trace { replies: replies@, at: 0 }),
    {
        Script { replies, at: 0 }
    }

    /// How many replies the workflow has used.
    pub fn position(&self) -> (position: usize)
        ensures
            position == self@.at,
    {
        self.at
    }

    fn take<E>(&mut self, request: Request<'a>) -> (taken: Result<(usize, &'a Reply), Stop<'a, E>>)
        ensures
            match taken {
                Ok((number, reply)) => !old(self)@.spent() && number == old(self)@.at && *reply
                    == old(self)@.reply() && final(self)@ == old(self)@.next(),
                Err(stop) => old(self)@.spent() && final(self)@ == old(self)@
                    && stop == Stop::<'a, E>::Wait(request),
            },
    {
        if self.at >= self.replies.len() {
            return Err(Stop::Wait(request));
        }
        let number: usize = self.at;
        let replies: &'a Vec<Reply> = self.replies;
        self.at = number + 1;
        Ok((number, &replies[number]))
    }

    /// Runs one statement.
    pub fn query<E>(&mut self, statement: Statement) -> (rows: Result<&'a Vec<Row>, Stop<'a, E>>)
        ensures
            ran(rows, final(self)@, |rows: &'a Vec<Row>| rows@) == query::<Seq<Row>, E>(
                old(self)@,
                statement@,
                |rows: Seq<Row>, trace: Trace| done(trace, rows),
            ),
    {
        let (number, reply) = self.take(Request::Store(statement))?;
        match reply {
            Reply::Rows(rows) => Ok(rows),
            Reply::Failed(_) => Err(Stop::Failed(number)),
            _ => Err(Stop::Mismatch(number)),
        }
    }

    /// Runs one statement whose rows do not matter.
    pub fn perform<E>(&mut self, statement: Statement) -> (ended: Result<(), Stop<'a, E>>)
        ensures
            ran(ended, final(self)@, |ended: ()| ended) == perform::<(), E>(
                old(self)@,
                statement@,
                |trace: Trace| done(trace, ()),
            ),
    {
        self.query(statement)?;
        Ok(())
    }

    /// Finds the user of a session token, if it has one.
    pub fn resolve_session<E>(&mut self, token: &str, now: Timestamp) -> (user: Result<
        Option<&'a String>,
        Stop<'a, E>,
    >)
        ensures
            ran(user, final(self)@, |user: Option<&'a String>| crate::text::opt_ref_view(user))
                == resolve_session::<Option<Seq<char>>, E>(
                old(self)@,
                token@,
                now,
                |user: Option<Seq<char>>, trace: Trace| done(trace, user),
            ),
    {
        let (number, reply) = self.take(
            Request::ResolveSession { token: token.to_owned(), now },
        )?;
        match reply {
            Reply::Text(user) => Ok(Some(user)),
            Reply::Refused(_) => Ok(None),
            Reply::Failed(_) => Err(Stop::Failed(number)),
            _ => Err(Stop::Mismatch(number)),
        }
    }

    pub fn text<E>(&mut self, request: Request<'a>) -> (text: Result<
        Result<&'a String, &'a String>,
        Stop<'a, E>,
    >)
        ensures
            ran(text, final(self)@, |text: Result<&'a String, &'a String>| given_text(text))
                == consult::<Seq<char>, Result<Seq<char>, String>, E>(
                old(self)@,
                request@,
                |reply: Reply| reply_text(reply),
                |text: Result<Seq<char>, String>, trace: Trace| done(trace, text),
            ),
    {
        let (number, reply) = self.take(request)?;
        match reply {
            Reply::Text(text) => Ok(Ok(text)),
            Reply::Refused(reason) => Ok(Err(reason)),
            _ => Err(Stop::Mismatch(number)),
        }
    }

    pub fn event<E>(&mut self, request: Request<'a>) -> (event: Result<
        Result<&'a GameEvent, &'a String>,
        Stop<'a, E>,
    >)
        ensures
            ran(event, final(self)@, |event: Result<&'a GameEvent, &'a String>| given(event)) == consult::<
                GameEvent,
                Result<GameEvent, String>,
                E,
            >(
                old(self)@,
                request@,
                |reply: Reply| reply_event(reply),
                |event: Result<GameEvent, String>, trace: Trace| done(trace, event),
            ),
    {
        let (number, reply) = self.take(request)?;
        match reply {
            Reply::Event(event) => Ok(Ok(event)),
            Reply::Refused(reason) => Ok(Err(reason)),
            _ => Err(Stop::Mismatch(number)),
        }
    }

    pub fn events<E>(&mut self, request: Request<'a>) -> (events: Result<
        Result<&'a Vec<GameEvent>, &'a String>,
        Stop<'a, E>,
    >)
        ensures
            ran(
                events,
                final(self)@,
                |events: Result<&'a Vec<GameEvent>, &'a String>|
                    match events {
                        Ok(events) => Ok(events@),
                        Err(reason) => Err(*reason),
                    },
            ) == consult::<Seq<GameEvent>, Result<Seq<GameEvent>, String>, E>(
                old(self)@,
                request@,
                |reply: Reply| reply_events(reply),
                |events: Result<Seq<GameEvent>, String>, trace: Trace| done(trace, events),
            ),
    {
        let (number, reply) = self.take(request)?;
        match reply {
            Reply::Events(events) => Ok(Ok(events)),
            Reply::Refused(reason) => Ok(Err(reason)),
            _ => Err(Stop::Mismatch(number)),
        }
    }

    pub fn state<E>(&mut self, request: Request<'a>) -> (state: Result<
        Result<&'a GameState, &'a String>,
        Stop<'a, E>,
    >)
        ensures
            ran(state, final(self)@, |state: Result<&'a GameState, &'a String>| given(state)) == consult::<
                GameState,
                Result<GameState, String>,
                E,
            >(
                old(self)@,
                request@,
                |reply: Reply| reply_state(reply),
                |state: Result<GameState, String>, trace: Trace| done(trace, state),
            ),
    {
        let (number, reply) = self.take(request)?;
        match reply {
            Reply::State(state) => Ok(Ok(state)),
            Reply::Refused(reason) => Ok(Err(reason)),
            _ => Err(Stop::Mismatch(number)),
        }
    }

    pub fn rules<E>(&mut self, request: Request<'a>) -> (rules: Result<
        Result<&'a RuleProfile, &'a String>,
        Stop<'a, E>,
    >)
        ensures
            ran(rules, final(self)@, |rules: Result<&'a RuleProfile, &'a String>| given(rules)) == consult::<
                RuleProfile,
                Result<RuleProfile, String>,
                E,
            >(
                old(self)@,
                request@,
                |reply: Reply| reply_rules(reply),
                |rules: Result<RuleProfile, String>, trace: Trace| done(trace, rules),
            ),
    {
        let (number, reply) = self.take(request)?;
        match reply {
            Reply::Rules(rules) => Ok(Ok(rules)),
            Reply::Refused(reason) => Ok(Err(reason)),
            _ => Err(Stop::Mismatch(number)),
        }
    }

    pub fn words<E>(&mut self, request: Request<'a>) -> (words: Result<
        Result<&'a Vec<String>, &'a String>,
        Stop<'a, E>,
    >)
        ensures
            ran(
                words,
                final(self)@,
                |words: Result<&'a Vec<String>, &'a String>|
                    match words {
                        Ok(words) => Ok(crate::text::texts_view(words@)),
                        Err(reason) => Err(*reason),
                    },
            ) == consult::<Seq<Seq<char>>, Result<Seq<Seq<char>>, String>, E>(
                old(self)@,
                request@,
                |reply: Reply| reply_words(reply),
                |words: Result<Seq<Seq<char>>, String>, trace: Trace| done(trace, words),
            ),
    {
        let (number, reply) = self.take(request)?;
        match reply {
            Reply::Words(words) => Ok(Ok(words)),
            Reply::Refused(reason) => Ok(Err(reason)),
            _ => Err(Stop::Mismatch(number)),
        }
    }

    /// Draws `count` fresh identities.
    pub fn draw<E>(&mut self, count: usize) -> (ids: Result<&'a Vec<u128>, Stop<'a, E>>)
        ensures
            ran(ids, final(self)@, |ids: &'a Vec<u128>| ids@) == draw::<Seq<u128>, E>(
                old(self)@,
                count as int,
                |ids: Seq<u128>, trace: Trace| done(trace, ids),
            ),
            ids matches Ok(ids) ==> ids@.len() == count,
    {
        let (number, reply) = self.take(Request::FreshIds(count))?;
        match reply {
            Reply::Ids(ids) => if ids.len() == count {
                Ok(ids)
            } else {
                Err(Stop::Mismatch(number))
            },
            _ => Err(Stop::Mismatch(number)),
        }
    }

    /// Draws `count` fresh bytes.
    pub fn draw_bytes<E>(&mut self, count: usize) -> (bytes: Result<&'a Vec<u8>, Stop<'a, E>>)
        ensures
            ran(bytes, final(self)@, |bytes: &'a Vec<u8>| bytes@) == draw_bytes::<Seq<u8>, E>(
                old(self)@,
                count as int,
                |bytes: Seq<u8>, trace: Trace| done(trace, bytes),
            ),
            bytes matches Ok(bytes) ==> bytes@.len() == count,
    {
        let (number, reply) = self.take(Request::FreshBytes(count))?;
        match reply {
            Reply::Bytes(bytes) => if bytes.len() == count {
                Ok(bytes)
            } else {
                Err(Stop::Mismatch(number))
            },
            _ => Err(Stop::Mismatch(number)),
        }
    }

    /// Reads a cached definition.
    pub fn definition<E>(&mut self, request: Request<'a>) -> (definition: Result<
        Result<&'a WordDefinition, &'a String>,
        Stop<'a, E>,
    >)
        ensures
            ran(
                definition,
                final(self)@,
                |definition: Result<&'a WordDefinition, &'a String>| given(definition),
            ) == consult::<WordDefinition, Result<WordDefinition, String>, E>(
                old(self)@,
                request@,
                |reply: Reply| reply_definition(reply),
                |definition: Result<WordDefinition, String>, trace: Trace|
                    done(trace, definition),
            ),
    {
        let (number, reply) = self.take(request)?;
        match reply {
            Reply::Definition(definition) => Ok(Ok(definition)),
            Reply::Refused(reason) => Ok(Err(reason)),
            _ => Err(Stop::Mismatch(number)),
        }
    }

    /// Asks the definition provider: a definition, no definition, or a failure.
    pub fn answer<E>(&mut self, request: Request<'a>) -> (answer: Result<
        Result<Option<&'a WordDefinition>, DefinitionError>,
        Stop<'a, E>,
    >)
        ensures
            ran(
                answer,
                final(self)@,
                |answer: Result<Option<&'a WordDefinition>, DefinitionError>|
                    match answer {
                        Ok(Some(definition)) => ProviderAnswer::Found(*definition),
                        Ok(None) => ProviderAnswer::Missing,
                        Err(error) => ProviderAnswer::Failed(error),
                    },
            ) == consult::<ProviderAnswer, ProviderAnswer, E>(
                old(self)@,
                request@,
                |reply: Reply| reply_answer(reply),
                |answer: Result<ProviderAnswer, String>, trace: Trace|
                    match answer {
                        Ok(answer) => done(trace, answer),
                        Err(_) => done(trace, ProviderAnswer::Failed(DefinitionError::ProviderFailure)),
                    },
            ),
    {
        let (number, reply) = self.take(request)?;
        match reply {
            Reply::Definition(definition) => Ok(Ok(Some(definition))),
            Reply::NoDefinition => Ok(Ok(None)),
            Reply::ProviderError(error) => Ok(Err(error.copied())),
            Reply::Refused(_) => Ok(Err(DefinitionError::ProviderFailure)),
            _ => Err(Stop::Mismatch(number)),
        }
    }

    /// Exchanges an authorization code: an ID token, a failure, or no ID token.
    pub fn token<E>(&mut self, request: Request<'a>) -> (token: Result<
        Option<Result<&'a String, GoogleOidcError>>,
        Stop<'a, E>,
    >)
        ensures
            ran(
                token,
                final(self)@,
                |token: Option<Result<&'a String, GoogleOidcError>>|
                    match token {
                        Some(Ok(token)) => Some(OidcAnswer::Given(token@)),
                        Some(Err(error)) => Some(OidcAnswer::Failed(error)),
                        None => None,
                    },
            ) == consult::<OidcAnswer<Seq<char>>, Option<OidcAnswer<Seq<char>>>, E>(
                old(self)@,
                request@,
                |reply: Reply| crate::oidc::reply_token(reply),
                |token: Result<OidcAnswer<Seq<char>>, String>, trace: Trace|
                    done(trace, kept(token)),
            ),
    {
        let (number, reply) = self.take(request)?;
        match reply {
            Reply::Text(token) => Ok(Some(Ok(token))),
            Reply::OidcError(error) => Ok(Some(Err(*error))),
            Reply::Refused(_) => Ok(None),
            _ => Err(Stop::Mismatch(number)),
        }
    }

    /// Finds the identity provider's keys: the keys, a failure, or no keys.
    pub fn keys<E>(&mut self, request: Request<'a>) -> (keys: Result<
        Option<Result<&'a ProviderKeys, GoogleOidcError>>,
        Stop<'a, E>,
    >)
        ensures
            ran(
                keys,
                final(self)@,
                |keys: Option<Result<&'a ProviderKeys, GoogleOidcError>>|
                    match keys {
                        Some(Ok(keys)) => Some(OidcAnswer::Given(keys@)),
                        Some(Err(error)) => Some(OidcAnswer::Failed(error)),
                        None => None,
                    },
            ) == consult::<OidcAnswer<KeysView>, Option<OidcAnswer<KeysView>>, E>(
                old(self)@,
                request@,
                |reply: Reply| crate::oidc::reply_keys(reply),
                |keys: Result<OidcAnswer<KeysView>, String>, trace: Trace| done(trace, kept(keys)),
            ),
    {
        let (number, reply) = self.take(request)?;
        match reply {
            Reply::Keys(keys) => Ok(Some(Ok(keys))),
            Reply::OidcError(error) => Ok(Some(Err(*error))),
            Reply::Refused(_) => Ok(None),
            _ => Err(Stop::Mismatch(number)),
        }
    }

    pub fn accepted<E>(&mut self, request: Request<'a>) -> (accepted: Result<bool, Stop<'a, E>>)
        ensures
            ran(accepted, final(self)@, |accepted: bool| accepted) == consult::<(), bool, E>(
                old(self)@,
                request@,
                |reply: Reply| reply_accepted(reply),
                |accepted: Result<(), String>, trace: Trace| done(trace, accepted is Ok),
            ),
    {
        let (number, reply) = self.take(request)?;
        match reply {
            Reply::Accepted => Ok(true),
            Reply::Refused(_) => Ok(false),
            _ => Err(Stop::Mismatch(number)),
        }
    }
}

/// The end of a transaction: commit after a result, roll back after an error.
pub open spec fn settled<T, E>(run: Run<T, E>) -> Run<T, E> {
    match run.outcome {
        Outcome::Done(value) => perform(run.trace, Op::commit(), |trace: Trace| done(trace, value)),
        Outcome::Wait(_) => run,
        _ => perform(
            run.trace,
            Op::rollback(),
            |trace: Trace| Run { outcome: run.outcome, trace },
        ),
    }
}

/// One transaction around `body`.
pub open spec fn transaction<T, E>(trace: Trace, body: spec_fn(Trace) -> Run<T, E>) -> Run<T, E> {
    perform(trace, Op::begin(), |trace: Trace| settled(body(trace)))
}

/// Ends a transaction: commits after a result, rolls back after an error.
pub fn settle<'a, T, E>(script: &mut Script<'a>, result: Result<T, Stop<'a, E>>) -> (ended: Result<
    T,
    Stop<'a, E>,
>)
    ensures
        ran(ended, final(script)@, |value: T| value) == settled(
            ran(result, old(script)@, |value: T| value),
        ),
        ended matches Ok(value) ==> result == Ok::<T, Stop<'a, E>>(value),
{
    match result {
        Ok(value) => {
            script.perform(Statement::commit())?;
            Ok(value)
        },
        Err(Stop::Wait(request)) => Err(Stop::Wait(request)),
        Err(Stop::Failed(number)) => {
            script.perform(Statement::rollback())?;
            Err(Stop::Failed(number))
        },
        Err(Stop::Mismatch(number)) => {
            script.perform(Statement::rollback())?;
            Err(Stop::Mismatch(number))
        },
        Err(Stop::Fail(error)) => {
            script.perform(Statement::rollback())?;
            Err(Stop::Fail(error))
        },
    }
}

} // verus!
