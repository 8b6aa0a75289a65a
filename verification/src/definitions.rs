//! Definitions of played words: the provider's answers, the durable cache, and what users see.
use crate::script::{self, Ask, ProviderAnswer, Reply, Request, Run, Script, Stop, Trace};
use crate::store::{self, Op, Row, Statement, Value};
use crate::text::{self, ascii_lower, decimal_text, joined, same_text, starts_with, strip_end, trim};
use vstd::prelude::*;

verus! {

/// The public definition provider.
pub const DEFAULT_DEFINITION_PROVIDER_BASE_URL: &'static str = "https://api.dictionaryapi.dev";

/// A definition with its required attribution.
#[derive(Debug, Clone, PartialEq, Eq)]
pub struct WordDefinition {
    pub word: String,
    pub meanings: Vec<DefinitionMeaning>,
    pub source_url: String,
    pub license_name: String,
    pub license_url: String,
}

/// The definitions of one part of speech.
#[derive(Debug, Clone, PartialEq, Eq)]
pub struct DefinitionMeaning {
    pub part_of_speech: String,
    pub definitions: Vec<String>,
}

/// The mathematical content of a [`DefinitionMeaning`].
#[verifier::ext_equal]
pub struct MeaningView {
    pub part_of_speech: Seq<char>,
    pub definitions: Seq<Seq<char>>,
}

/// The mathematical content of a [`WordDefinition`].
#[verifier::ext_equal]
pub struct DefinitionView {
    pub word: Seq<char>,
    pub meanings: Seq<MeaningView>,
    pub source_url: Seq<char>,
    pub license_name: Seq<char>,
    pub license_url: Seq<char>,
}

impl View for DefinitionMeaning {
    type V = MeaningView;

    open spec fn view(&self) -> MeaningView {
        MeaningView {
            part_of_speech: self.part_of_speech@,
            definitions: text::texts_view(self.definitions@),
        }
    }
}

pub open spec fn meanings_view(meanings: Seq<DefinitionMeaning>) -> Seq<MeaningView> {
    Seq::new(meanings.len(), |i: int| meanings[i]@)
}

impl View for WordDefinition {
    type V = DefinitionView;

    open spec fn view(&self) -> DefinitionView {
        DefinitionView {
            word: self.word@,
            meanings: meanings_view(self.meanings@),
            source_url: self.source_url@,
            license_name: self.license_name@,
            license_url: self.license_url@,
        }
    }
}

/// Why no definition can be shown.
#[derive(Debug, Clone, Copy, PartialEq, Eq, Structural)]
pub enum DefinitionUnavailableReason {
    Disabled,
    TimedOut,
    Unreachable,
    RateLimited,
    ProviderUnavailable,
    ProviderRejected,
    InvalidResponse,
    ResponseTooLarge,
    MissingAttribution,
    CacheUnavailable,
}

/// Definition failure.
#[derive(Debug, Clone, PartialEq, Eq)]
pub enum DefinitionError {
    InvalidWord,
    ProviderFailure,
    ProviderStatus(u16),
    ResponseTooLarge,
    MissingAttribution,
    MalformedCache,
    /// The transport failed, because of a timeout or otherwise.
    Http { timeout: bool, reason: String },
    /// The store failed.
    Database(String),
    /// A payload could not be written or read.
    Json(String),
}

impl DefinitionError {
    pub fn copied(&self) -> (copy: DefinitionError)
        ensures
            copy == *self,
    {
        match self {
            DefinitionError::InvalidWord => DefinitionError::InvalidWord,
            DefinitionError::ProviderFailure => DefinitionError::ProviderFailure,
            DefinitionError::ProviderStatus(status) => DefinitionError::ProviderStatus(*status),
            DefinitionError::ResponseTooLarge => DefinitionError::ResponseTooLarge,
            DefinitionError::MissingAttribution => DefinitionError::MissingAttribution,
            DefinitionError::MalformedCache => DefinitionError::MalformedCache,
            DefinitionError::Http { timeout, reason } => DefinitionError::Http {
                timeout: *timeout,
                reason: reason.clone(),
            },
            DefinitionError::Database(reason) => DefinitionError::Database(reason.clone()),
            DefinitionError::Json(reason) => DefinitionError::Json(reason.clone()),
        }
    }

    /// The error in words; an outside error is told in its own.
    pub open spec fn message_of(self) -> Seq<char> {
        match self {
            DefinitionError::InvalidWord => "played word is invalid"@,
            DefinitionError::ProviderFailure => "definition provider failed"@,
            DefinitionError::ProviderStatus(status) => "definition provider returned status "@ + text::decimal(status as nat),
            DefinitionError::ResponseTooLarge => "definition provider response was too large"@,
            DefinitionError::MissingAttribution => "definition provider omitted required attribution"@,
            DefinitionError::MalformedCache => "definition cache row is malformed"@,
            DefinitionError::Http { reason, .. } => reason@,
            DefinitionError::Database(reason) => reason@,
            DefinitionError::Json(reason) => reason@,
        }
    }

    pub fn message(self) -> (message: String)
        ensures
            message@ == self.message_of(),
    {
        match self {
            DefinitionError::InvalidWord => "played word is invalid".to_owned(),
            DefinitionError::ProviderFailure => "definition provider failed".to_owned(),
            DefinitionError::ProviderStatus(status) => joined("definition provider returned status ", decimal_text(status as u64).as_str()),
            DefinitionError::ResponseTooLarge => "definition provider response was too large".to_owned(),
            DefinitionError::MissingAttribution => "definition provider omitted required attribution".to_owned(),
            DefinitionError::MalformedCache => "definition cache row is malformed".to_owned(),
            DefinitionError::Http { reason, .. } => reason,
            DefinitionError::Database(reason) => reason,
            DefinitionError::Json(reason) => reason,
        }
    }
}

impl DefinitionUnavailableReason {
    pub open spec fn message_of(self) -> Seq<char> {
        match self {
            DefinitionUnavailableReason::Disabled =>
                "Definitions have been disabled by the server administrator."@,
            DefinitionUnavailableReason::TimedOut =>
                "The definition provider timed out. Try again."@,
            DefinitionUnavailableReason::Unreachable =>
                "The definition provider could not be reached. Try again."@,
            DefinitionUnavailableReason::RateLimited =>
                "The definition provider is temporarily rate limited. Try again later."@,
            DefinitionUnavailableReason::ProviderUnavailable =>
                "The definition provider is temporarily unavailable. Try again later."@,
            DefinitionUnavailableReason::ProviderRejected =>
                "The definition provider configuration was rejected."@,
            DefinitionUnavailableReason::InvalidResponse =>
                "The provider returned an invalid definition response."@,
            DefinitionUnavailableReason::ResponseTooLarge =>
                "The provider response exceeded the application's safety limit."@,
            DefinitionUnavailableReason::MissingAttribution =>
                "The provider response omitted required licensing information."@,
            DefinitionUnavailableReason::CacheUnavailable =>
                "The definition cache could not be accessed. Try again."@,
        }
    }

    /// What users are told.
    pub fn user_message(self) -> (message: &'static str)
        ensures
            message@ == self.message_of(),
    {
        match self {
            DefinitionUnavailableReason::Disabled =>
                "Definitions have been disabled by the server administrator.",
            DefinitionUnavailableReason::TimedOut =>
                "The definition provider timed out. Try again.",
            DefinitionUnavailableReason::Unreachable =>
                "The definition provider could not be reached. Try again.",
            DefinitionUnavailableReason::RateLimited =>
                "The definition provider is temporarily rate limited. Try again later.",
            DefinitionUnavailableReason::ProviderUnavailable =>
                "The definition provider is temporarily unavailable. Try again later.",
            DefinitionUnavailableReason::ProviderRejected =>
                "The definition provider configuration was rejected.",
            DefinitionUnavailableReason::InvalidResponse =>
                "The provider returned an invalid definition response.",
            DefinitionUnavailableReason::ResponseTooLarge =>
                "The provider response exceeded the application's safety limit.",
            DefinitionUnavailableReason::MissingAttribution =>
                "The provider response omitted required licensing information.",
            DefinitionUnavailableReason::CacheUnavailable =>
                "The definition cache could not be accessed. Try again.",
        }
    }

    pub open spec fn label_of(self) -> Seq<char> {
        match self {
            DefinitionUnavailableReason::Disabled => "disabled"@,
            DefinitionUnavailableReason::TimedOut => "timeout"@,
            DefinitionUnavailableReason::Unreachable => "unreachable"@,
            DefinitionUnavailableReason::RateLimited => "rate_limited"@,
            DefinitionUnavailableReason::ProviderUnavailable => "provider_unavailable"@,
            DefinitionUnavailableReason::ProviderRejected => "provider_rejected"@,
            DefinitionUnavailableReason::InvalidResponse => "invalid_response"@,
            DefinitionUnavailableReason::ResponseTooLarge => "response_too_large"@,
            DefinitionUnavailableReason::MissingAttribution => "missing_attribution"@,
            DefinitionUnavailableReason::CacheUnavailable => "cache_unavailable"@,
        }
    }

    /// A label for logs.
    pub fn log_reason(self) -> (label: &'static str)
        ensures
            label@ == self.label_of(),
    {
        match self {
            DefinitionUnavailableReason::Disabled => "disabled",
            DefinitionUnavailableReason::TimedOut => "timeout",
            DefinitionUnavailableReason::Unreachable => "unreachable",
            DefinitionUnavailableReason::RateLimited => "rate_limited",
            DefinitionUnavailableReason::ProviderUnavailable => "provider_unavailable",
            DefinitionUnavailableReason::ProviderRejected => "provider_rejected",
            DefinitionUnavailableReason::InvalidResponse => "invalid_response",
            DefinitionUnavailableReason::ResponseTooLarge => "response_too_large",
            DefinitionUnavailableReason::MissingAttribution => "missing_attribution",
            DefinitionUnavailableReason::CacheUnavailable => "cache_unavailable",
        }
    }

    pub open spec fn reason_of(error: DefinitionError) -> DefinitionUnavailableReason {
        match error {
            DefinitionError::Http { timeout, .. } => if timeout {
                DefinitionUnavailableReason::TimedOut
            } else {
                DefinitionUnavailableReason::Unreachable
            },
            DefinitionError::ProviderStatus(status) => if status == 429 {
                DefinitionUnavailableReason::RateLimited
            } else if status == 401 || status == 403 {
                DefinitionUnavailableReason::ProviderRejected
            } else if 500 <= status <= 599 {
                DefinitionUnavailableReason::ProviderUnavailable
            } else {
                DefinitionUnavailableReason::InvalidResponse
            },
            DefinitionError::ProviderFailure => DefinitionUnavailableReason::ProviderUnavailable,
            DefinitionError::ResponseTooLarge => DefinitionUnavailableReason::ResponseTooLarge,
            DefinitionError::MissingAttribution => DefinitionUnavailableReason::MissingAttribution,
            DefinitionError::Database(_) => DefinitionUnavailableReason::CacheUnavailable,
            DefinitionError::MalformedCache => DefinitionUnavailableReason::CacheUnavailable,
            DefinitionError::Json(_) => DefinitionUnavailableReason::InvalidResponse,
            DefinitionError::InvalidWord => DefinitionUnavailableReason::InvalidResponse,
        }
    }

    /// Why an error leaves users without a definition.
    pub fn from_error(error: &DefinitionError) -> (reason: DefinitionUnavailableReason)
        ensures
            reason == DefinitionUnavailableReason::reason_of(*error),
    {
        match *error {
            DefinitionError::Http { timeout, .. } => if timeout {
                DefinitionUnavailableReason::TimedOut
            } else {
                DefinitionUnavailableReason::Unreachable
            },
            DefinitionError::ProviderStatus(status) => if status == 429 {
                DefinitionUnavailableReason::RateLimited
            } else if status == 401 || status == 403 {
                DefinitionUnavailableReason::ProviderRejected
            } else if 500 <= status && status <= 599 {
                DefinitionUnavailableReason::ProviderUnavailable
            } else {
                DefinitionUnavailableReason::InvalidResponse
            },
            DefinitionError::ProviderFailure => DefinitionUnavailableReason::ProviderUnavailable,
            DefinitionError::ResponseTooLarge => DefinitionUnavailableReason::ResponseTooLarge,
            DefinitionError::MissingAttribution => DefinitionUnavailableReason::MissingAttribution,
            DefinitionError::Database(_) => DefinitionUnavailableReason::CacheUnavailable,
            DefinitionError::MalformedCache => DefinitionUnavailableReason::CacheUnavailable,
            DefinitionError::Json(_) => DefinitionUnavailableReason::InvalidResponse,
            DefinitionError::InvalidWord => DefinitionUnavailableReason::InvalidResponse,
        }
    }
}

/// What a lookup shows.
#[derive(Debug, Clone, PartialEq, Eq)]
pub enum DefinitionLookup {
    Found(WordDefinition),
    Missing,
    Unavailable(DefinitionUnavailableReason),
}

/// The mathematical content of a [`DefinitionLookup`].
pub enum LookupView {
    Found(DefinitionView),
    Missing,
    Unavailable(DefinitionUnavailableReason),
}

impl View for DefinitionLookup {
    type V = LookupView;

    open spec fn view(&self) -> LookupView {
        match self {
            DefinitionLookup::Found(definition) => LookupView::Found(definition@),
            DefinitionLookup::Missing => LookupView::Missing,
            DefinitionLookup::Unavailable(reason) => LookupView::Unavailable(*reason),
        }
    }
}

fn copied_texts(texts: &Vec<String>) -> (copy: Vec<String>)
    ensures
        text::texts_view(copy@) == text::texts_view(texts@),
{
    let mut copy: Vec<String> = Vec::new();
    let mut at: usize = 0;
    while at < texts.len()
        invariant
            at <= texts@.len(),
            copy@.len() == at,
            forall|i: int| 0 <= i < at ==> (#[trigger] copy@[i])@ == texts@[i]@,
        decreases texts@.len() - at,
    {
        copy.push(texts[at].clone());
        at = at + 1;
    }
    assert(text::texts_view(copy@) =~= text::texts_view(texts@));
    copy
}

impl WordDefinition {
    /// The same definition.
    pub fn copied(&self) -> (copy: WordDefinition)
        ensures
            copy@ == self@,
    {
        let mut meanings: Vec<DefinitionMeaning> = Vec::new();
        let mut at: usize = 0;
        while at < self.meanings.len()
            invariant
                at <= self.meanings@.len(),
                meanings@.len() == at,
                forall|i: int| 0 <= i < at ==> (#[trigger] meanings@[i])@ == self.meanings@[i]@,
            decreases self.meanings@.len() - at,
        {
            let meaning = DefinitionMeaning {
                part_of_speech: self.meanings[at].part_of_speech.clone(),
                definitions: copied_texts(&self.meanings[at].definitions),
            };
            meanings.push(meaning);
            at = at + 1;
        }
        assert(meanings_view(meanings@) =~= meanings_view(self.meanings@));
        WordDefinition {
            word: self.word.clone(),
            meanings,
            source_url: self.source_url.clone(),
            license_name: self.license_name.clone(),
            license_url: self.license_url.clone(),
        }
    }
}

/// How long a found definition stays in the cache: thirty days.
pub const SUCCESS_TTL_MS: i64 = 2_592_000_000;

/// How long the absence of a definition stays in the cache: one day.
pub const MISSING_TTL_MS: i64 = 86_400_000;

pub open spec fn cache_id_of(word: Seq<char>) -> Seq<char> {
    "free-dictionary-api:1:en:"@ + word
}

pub fn cache_id(word: &str) -> (id: String)
    ensures
        id@ == cache_id_of(word@),
{
    joined("free-dictionary-api:1:en:", word)
}

/// Load a cache entry that has not expired.
pub open spec fn load_cached_run(trace: Trace, word: Seq<char>, now_ms: i64) -> Run<
    Option<LookupView>,
    DefinitionError,
> {
    script::query(
        trace,
        Op::select("definition_cache"@).where_text("definition_cache_id"@, cache_id_of(word)),
        |rows: Seq<Row>, trace: Trace|
            if rows.len() == 0 {
                script::done(trace, None)
            } else {
                cached_row_run(trace, rows[0], now_ms)
            },
    )
}

pub open spec fn cached_row_run(trace: Trace, row: Row, now_ms: i64) -> Run<
    Option<LookupView>,
    DefinitionError,
> {
    match row.integer_at("expires_at_ms"@) {
        None => script::fail(trace, DefinitionError::MalformedCache),
        Some(expires) => if expires <= now_ms {
            script::done(trace, None)
        } else if row.text_at("status"@) == Some("FOUND"@) {
            match row.text_at("payload"@) {
                None => script::fail(trace, DefinitionError::MalformedCache),
                Some(payload) => script::consult(
                    trace,
                    Ask::DecodeDefinition(payload),
                    |reply: Reply| script::reply_definition(reply),
                    |definition: Result<WordDefinition, String>, trace: Trace|
                        match definition {
                            Err(reason) => script::fail(trace, DefinitionError::Json(reason)),
                            Ok(definition) => script::done(
                                trace,
                                Some(LookupView::Found(definition@)),
                            ),
                        },
                ),
            }
        } else if row.text_at("status"@) == Some("MISSING"@) {
            script::done(trace, Some(LookupView::Missing))
        } else {
            script::fail(trace, DefinitionError::MalformedCache)
        },
    }
}

pub open spec fn opt_lookup_view(lookup: Option<DefinitionLookup>) -> Option<LookupView> {
    match lookup {
        Some(lookup) => Some(lookup@),
        None => None,
    }
}

fn load_cached<'a>(script: &mut Script<'a>, word: &str, now_ms: i64) -> (cached: Result<
    Option<DefinitionLookup>,
    Stop<'a, DefinitionError>,
>)
    ensures
        script::ran(
            cached,
            final(script)@,
            |lookup: Option<DefinitionLookup>| opt_lookup_view(lookup),
        ) == load_cached_run(old(script)@, word@, now_ms),
{
    let rows = script.query(
        Statement::select("definition_cache").where_text(
            "definition_cache_id",
            cache_id(word).as_str(),
        ),
    )?;
    if rows.len() == 0 {
        return Ok(None);
    }
    let row = &rows[0];
    let expires: i64 = match row.get_integer("expires_at_ms") {
        Some(expires) => expires,
        None => return Err(Stop::Fail(DefinitionError::MalformedCache)),
    };
    if expires <= now_ms {
        return Ok(None);
    }
    let status = match row.get_text("status") {
        Some(status) => status,
        None => return Err(Stop::Fail(DefinitionError::MalformedCache)),
    };
    if same_text(status.as_str(), "FOUND") {
        let payload = match row.get_text("payload") {
            Some(payload) => payload,
            None => return Err(Stop::Fail(DefinitionError::MalformedCache)),
        };
        match script.definition(Request::DecodeDefinition(payload))? {
            Ok(definition) => Ok(Some(DefinitionLookup::Found(definition.copied()))),
            Err(reason) => Err(Stop::Fail(DefinitionError::Json(reason.clone()))),
        }
    } else if same_text(status.as_str(), "MISSING") {
        Ok(Some(DefinitionLookup::Missing))
    } else {
        Err(Stop::Fail(DefinitionError::MalformedCache))
    }
}

/// The moment `ttl_ms` after `now_ms`, or the last one there is.
pub open spec fn expiry(now_ms: i64, ttl_ms: i64) -> int {
    if now_ms + ttl_ms > i64::MAX {
        i64::MAX as int
    } else if now_ms + ttl_ms < i64::MIN {
        i64::MIN as int
    } else {
        now_ms + ttl_ms
    }
}

pub open spec fn cache_op(
    word: Seq<char>,
    status: Seq<char>,
    payload: Option<Seq<char>>,
    now_ms: i64,
    ttl_ms: i64,
) -> Op {
    Op::upsert("definition_cache"@)
        .where_text("definition_cache_id"@, cache_id_of(word))
        .text("definition_cache_id"@, cache_id_of(word))
        .text("provider"@, "free-dictionary-api"@)
        .integer("provider_version"@, 1)
        .text("language"@, "en"@)
        .text("word"@, word)
        .text("status"@, status)
        .integer("fetched_at_ms"@, now_ms as int)
        .integer("expires_at_ms"@, expiry(now_ms, ttl_ms))
        .value("payload"@, store::datum_of_option(payload))
}

fn store_entry<'a>(
    script: &mut Script<'a>,
    word: &str,
    status: &str,
    payload: Value,
    now_ms: i64,
    ttl_ms: i64,
    Ghost(content): Ghost<Option<Seq<char>>>,
) -> (stored: Result<(), Stop<'a, DefinitionError>>)
    requires
        payload@ == store::datum_of_option(content),
    ensures
        script::ran(stored, final(script)@, |stored: ()| stored) == script::perform(
            old(script)@,
            cache_op(word@, status@, content, now_ms, ttl_ms),
            |trace: Trace| script::done::<(), DefinitionError>(trace, ()),
        ),
{
    let expires: i64 = match now_ms.checked_add(ttl_ms) {
        Some(expires) => expires,
        None => if ttl_ms > 0 {
            i64::MAX
        } else {
            i64::MIN
        },
    };
    script.perform(
        Statement::upsert("definition_cache")
            .where_text("definition_cache_id", cache_id(word).as_str())
            .text("definition_cache_id", cache_id(word).as_str())
            .text("provider", "free-dictionary-api")
            .integer("provider_version", 1)
            .text("language", "en")
            .text("word", word)
            .text("status", status)
            .integer("fetched_at_ms", now_ms)
            .integer("expires_at_ms", expires)
            .value("payload", payload),
    )
}

/// Ask the provider and keep what it answers.
pub open spec fn fetch_run(trace: Trace, word: Seq<char>, now_ms: i64) -> Run<
    LookupView,
    DefinitionError,
> {
    script::consult(
        trace,
        Ask::LookUpWord(word),
        |reply: Reply| script::reply_answer(reply),
        |answer: Result<ProviderAnswer, String>, trace: Trace|
            match answer {
                Ok(ProviderAnswer::Found(definition)) => script::consult(
                    trace,
                    Ask::EncodeDefinition(definition),
                    |reply: Reply| script::reply_text(reply),
                    |payload: Result<Seq<char>, String>, trace: Trace|
                        match payload {
                            Err(reason) => script::fail(trace, DefinitionError::Json(reason)),
                            Ok(payload) => script::perform(
                                trace,
                                cache_op(word, "FOUND"@, Some(payload), now_ms, SUCCESS_TTL_MS),
                                |trace: Trace|
                                    script::done(trace, LookupView::Found(definition@)),
                            ),
                        },
                ),
                Ok(ProviderAnswer::Missing) => script::perform(
                    trace,
                    cache_op(word, "MISSING"@, None, now_ms, MISSING_TTL_MS),
                    |trace: Trace| script::done(trace, LookupView::Missing),
                ),
                Ok(ProviderAnswer::Failed(error)) => script::done(
                    trace,
                    LookupView::Unavailable(DefinitionUnavailableReason::reason_of(error)),
                ),
                Err(_) => script::done(
                    trace,
                    LookupView::Unavailable(
                        DefinitionUnavailableReason::reason_of(DefinitionError::ProviderFailure),
                    ),
                ),
            },
    )
}

fn fetch<'a>(script: &mut Script<'a>, word: &str, now_ms: i64) -> (fetched: Result<
    DefinitionLookup,
    Stop<'a, DefinitionError>,
>)
    ensures
        script::ran(fetched, final(script)@, |lookup: DefinitionLookup| lookup@) == fetch_run(
            old(script)@,
            word@,
            now_ms,
        ),
{
    match script.answer(Request::LookUpWord(word.to_owned()))? {
        Ok(Some(definition)) => {
            let payload = match script.text(Request::EncodeDefinition(definition))? {
                Ok(payload) => payload,
                Err(reason) => return Err(Stop::Fail(DefinitionError::Json(reason.clone()))),
            };
            store_entry(
                script,
                word,
                "FOUND",
                Value::text(payload.as_str()),
                now_ms,
                SUCCESS_TTL_MS,
                Ghost(Some(payload@)),
            )?;
            Ok(DefinitionLookup::Found(definition.copied()))
        },
        Ok(None) => {
            store_entry(
                script,
                word,
                "MISSING",
                Value::Null,
                now_ms,
                MISSING_TTL_MS,
                Ghost(None),
            )?;
            Ok(DefinitionLookup::Missing)
        },
        Err(error) => Ok(
            DefinitionLookup::Unavailable(DefinitionUnavailableReason::from_error(&error)),
        ),
    }
}

/// Look a played word up: in the cache, in the cache again under the exclusive right, and then at
/// the provider, if there is one.
pub open spec fn lookup_definition_run(
    trace: Trace,
    provider: bool,
    word: Seq<char>,
    now_ms: i64,
) -> Run<LookupView, DefinitionError> {
    script::consult(
        trace,
        Ask::NormalizeWord(word),
        |reply: Reply| script::reply_text(reply),
        |normalized: Result<Seq<char>, String>, trace: Trace|
            match normalized {
                Err(_) => script::fail(trace, DefinitionError::InvalidWord),
                Ok(normalized) => script::chain(
                    load_cached_run(trace, normalized, now_ms),
                    |cached: Option<LookupView>, trace: Trace|
                        match cached {
                            Some(cached) => script::done(trace, cached),
                            None => lookup_exclusively_run(trace, provider, normalized, now_ms),
                        },
                ),
            },
    )
}

pub open spec fn lookup_exclusively_run(
    trace: Trace,
    provider: bool,
    word: Seq<char>,
    now_ms: i64,
) -> Run<LookupView, DefinitionError> {
    script::consult(
        trace,
        Ask::HoldLookup(cache_id_of(word)),
        |reply: Reply| script::reply_accepted(reply),
        |held: Result<(), String>, trace: Trace|
            script::chain(
                load_cached_run(trace, word, now_ms),
                |cached: Option<LookupView>, trace: Trace|
                    match cached {
                        Some(cached) => script::done(trace, cached),
                        None => if provider {
                            fetch_run(trace, word, now_ms)
                        } else {
                            script::done(
                                trace,
                                LookupView::Unavailable(DefinitionUnavailableReason::Disabled),
                            )
                        },
                    },
            ),
    )
}

/// Resolves a played word through the durable cache and, where `provider` says there is one, the
/// definition provider.
pub fn lookup_definition<'a>(
    script: &mut Script<'a>,
    provider: bool,
    word: &str,
    now_ms: i64,
) -> (found: Result<DefinitionLookup, Stop<'a, DefinitionError>>)
    ensures
        script::ran(found, final(script)@, |lookup: DefinitionLookup| lookup@)
            == lookup_definition_run(old(script)@, provider, word@, now_ms),
{
    let normalized = match script.text(Request::NormalizeWord(word.to_owned()))? {
        Ok(normalized) => normalized,
        Err(_) => return Err(Stop::Fail(DefinitionError::InvalidWord)),
    };
    if let Some(cached) = load_cached(script, normalized.as_str(), now_ms)? {
        return Ok(cached);
    }
    script.accepted(Request::HoldLookup(cache_id(normalized.as_str())))?;
    if let Some(cached) = load_cached(script, normalized.as_str(), now_ms)? {
        return Ok(cached);
    }
    if !provider {
        return Ok(DefinitionLookup::Unavailable(DefinitionUnavailableReason::Disabled));
    }
    fetch(script, normalized.as_str(), now_ms)
}

/// Every reason has its own message.
pub proof fn messages_are_distinct(
    left: DefinitionUnavailableReason,
    right: DefinitionUnavailableReason,
)
    requires
        left.message_of() == right.message_of(),
    ensures
        left == right,
{
    reveal_strlit("Definitions have been disabled by the server administrator.");
    assert("Definitions have been disabled by the server administrator."@.len() == 59);
    reveal_strlit("The definition provider timed out. Try again.");
    assert("The definition provider timed out. Try again."@.len() == 45);
    reveal_strlit("The definition provider could not be reached. Try again.");
    assert("The definition provider could not be reached. Try again."@.len() == 56);
    reveal_strlit("The definition provider is temporarily rate limited. Try again later.");
    assert("The definition provider is temporarily rate limited. Try again later."@.len() == 69);
    reveal_strlit("The definition provider is temporarily unavailable. Try again later.");
    assert("The definition provider is temporarily unavailable. Try again later."@.len() == 68);
    reveal_strlit("The definition provider configuration was rejected.");
    assert("The definition provider configuration was rejected."@.len() == 51);
    reveal_strlit("The provider returned an invalid definition response.");
    assert("The provider returned an invalid definition response."@.len() == 53);
    reveal_strlit("The provider response exceeded the application's safety limit.");
    assert("The provider response exceeded the application's safety limit."@.len() == 62);
    reveal_strlit("The provider response omitted required licensing information.");
    assert("The provider response omitted required licensing information."@.len() == 61);
    reveal_strlit("The definition cache could not be accessed. Try again.");
    assert("The definition cache could not be accessed. Try again."@.len() == 54);
    assert(left.message_of().len() == right.message_of().len());
}

/// One entry of a provider response.
#[derive(Debug, Clone, PartialEq, Eq)]
pub struct ProviderEntry {
    pub meanings: Vec<ProviderMeaning>,
    pub source_urls: Vec<String>,
    pub license: Option<ProviderLicense>,
}

/// One part of speech in a provider response.
#[derive(Debug, Clone, PartialEq, Eq)]
pub struct ProviderMeaning {
    pub part_of_speech: String,
    pub definitions: Vec<String>,
}

/// The license of a provider response.
#[derive(Debug, Clone, PartialEq, Eq)]
pub struct ProviderLicense {
    pub name: String,
    pub url: String,
}

/// The trimmed definitions that are not blank.
pub open spec fn kept_definitions(definitions: Seq<String>) -> Seq<Seq<char>>
    decreases definitions.len(),
{
    if definitions.len() == 0 {
        Seq::empty()
    } else {
        let before = kept_definitions(definitions.drop_last());
        let shown = text::trimmed(definitions.last()@);
        if shown.len() == 0 {
            before
        } else {
            before.push(shown)
        }
    }
}

/// At most `count` elements from the beginning.
pub open spec fn at_most<T>(items: Seq<T>, count: int) -> Seq<T> {
    if items.len() <= count {
        items
    } else {
        items.take(count)
    }
}

/// The meanings that keep at least one of their first eight definitions.
pub open spec fn kept_meanings(meanings: Seq<ProviderMeaning>) -> Seq<MeaningView>
    decreases meanings.len(),
{
    if meanings.len() == 0 {
        Seq::empty()
    } else {
        let before = kept_meanings(meanings.drop_last());
        let definitions = kept_definitions(at_most(meanings.last().definitions@, 8));
        if definitions.len() == 0 {
            before
        } else {
            before.push(
                MeaningView { part_of_speech: meanings.last().part_of_speech@, definitions },
            )
        }
    }
}

/// The first HTTPS source, if there is one.
pub open spec fn secure_source(urls: Seq<String>) -> Option<Seq<char>>
    decreases urls.len(),
{
    if urls.len() == 0 {
        None
    } else if text::begins_with(urls[0]@, "https://"@) {
        Some(urls[0]@)
    } else {
        secure_source(urls.skip(1))
    }
}

pub open spec fn source_of(urls: Seq<String>, word: Seq<char>) -> Seq<char> {
    match secure_source(urls) {
        Some(url) => url,
        None => "https://en.wiktionary.org/wiki/"@ + text::ascii_lowered(word),
    }
}

/// What a provider response says about a word.
pub open spec fn provider_result(word: Seq<char>, entries: Seq<ProviderEntry>) -> Result<
    Option<DefinitionView>,
    DefinitionError,
> {
    if entries.len() == 0 {
        Ok(None)
    } else {
        let entry = entries[0];
        let meanings = kept_meanings(at_most(entry.meanings@, 12));
        if meanings.len() == 0 {
            Ok(None)
        } else {
            match entry.license {
                None => Err(DefinitionError::MissingAttribution),
                Some(license) => if !text::begins_with(license.url@, "https://"@) {
                    Err(DefinitionError::MissingAttribution)
                } else {
                    Ok(
                        Some(
                            DefinitionView {
                                word,
                                meanings,
                                source_url: source_of(entry.source_urls@, word),
                                license_name: license.name@,
                                license_url: license.url@,
                            },
                        ),
                    )
                },
            }
        }
    }
}

fn keep_definitions(definitions: &Vec<String>) -> (kept: Vec<String>)
    ensures
        text::texts_view(kept@) == kept_definitions(at_most(definitions@, 8)),
{
    let mut kept: Vec<String> = Vec::new();
    let mut at: usize = 0;
    assert(text::texts_view(kept@) =~= kept_definitions(definitions@.take(0)));
    while at < definitions.len() && at < 8
        invariant
            at <= definitions@.len(),
            at <= 8,
            text::texts_view(kept@) == kept_definitions(definitions@.take(at as int)),
        decreases definitions@.len() - at,
    {
        assert(definitions@.take(at + 1).drop_last() =~= definitions@.take(at as int));
        assert(definitions@.take(at + 1).last() == definitions@[at as int]);
        let shown = trim(definitions[at].as_str());
        if shown.as_str().unicode_len() > 0 {
            let ghost before = text::texts_view(kept@);
            kept.push(shown);
            assert(text::texts_view(kept@) =~= before.push(shown@));
        }
        at = at + 1;
    }
    assert(definitions@.take(at as int) =~= at_most(definitions@, 8));
    kept
}

fn keep_meanings(meanings: &Vec<ProviderMeaning>) -> (kept: Vec<DefinitionMeaning>)
    ensures
        meanings_view(kept@) == kept_meanings(at_most(meanings@, 12)),
{
    let mut kept: Vec<DefinitionMeaning> = Vec::new();
    let mut at: usize = 0;
    assert(meanings_view(kept@) =~= kept_meanings(meanings@.take(0)));
    while at < meanings.len() && at < 12
        invariant
            at <= meanings@.len(),
            at <= 12,
            meanings_view(kept@) == kept_meanings(meanings@.take(at as int)),
        decreases meanings@.len() - at,
    {
        assert(meanings@.take(at + 1).drop_last() =~= meanings@.take(at as int));
        assert(meanings@.take(at + 1).last() == meanings@[at as int]);
        let definitions = keep_definitions(&meanings[at].definitions);
        if definitions.len() > 0 {
            let ghost before = meanings_view(kept@);
            let meaning = DefinitionMeaning {
                part_of_speech: meanings[at].part_of_speech.clone(),
                definitions,
            };
            kept.push(meaning);
            assert(meanings_view(kept@) =~= before.push(meaning@));
        }
        at = at + 1;
    }
    assert(meanings@.take(at as int) =~= at_most(meanings@, 12));
    kept
}

fn find_source(urls: &Vec<String>, word: &str) -> (url: String)
    ensures
        url@ == source_of(urls@, word@),
{
    let mut at: usize = 0;
    assert(urls@.skip(0) =~= urls@);
    while at < urls.len()
        invariant
            at <= urls@.len(),
            secure_source(urls@) == secure_source(urls@.skip(at as int)),
        decreases urls@.len() - at,
    {
        assert(urls@.skip(at as int).skip(1) =~= urls@.skip(at + 1));
        if starts_with(urls[at].as_str(), "https://") {
            return urls[at].clone();
        }
        at = at + 1;
    }
    joined("https://en.wiktionary.org/wiki/", ascii_lower(word).as_str())
}

/// Reads a definition from the entries of a provider response: bounded, trimmed, and only with its
/// license over HTTPS.
pub fn parse_provider_response(word: &str, entries: &Vec<ProviderEntry>) -> (parsed: Result<
    Option<WordDefinition>,
    DefinitionError,
>)
    ensures
        match parsed {
            Ok(Some(definition)) => provider_result(word@, entries@) == Ok::<
                Option<DefinitionView>,
                DefinitionError,
            >(Some(definition@)),
            Ok(None) => provider_result(word@, entries@) == Ok::<
                Option<DefinitionView>,
                DefinitionError,
            >(None),
            Err(error) => provider_result(word@, entries@) == Err::<
                Option<DefinitionView>,
                DefinitionError,
            >(error),
        },
{
    if entries.len() == 0 {
        return Ok(None);
    }
    let entry = &entries[0];
    let meanings = keep_meanings(&entry.meanings);
    if meanings.len() == 0 {
        return Ok(None);
    }
    let source_url = find_source(&entry.source_urls, word);
    match &entry.license {
        None => Err(DefinitionError::MissingAttribution),
        Some(license) => {
            if !starts_with(license.url.as_str(), "https://") {
                return Err(DefinitionError::MissingAttribution);
            }
            Ok(
                Some(
                    WordDefinition {
                        word: word.to_owned(),
                        meanings,
                        source_url,
                        license_name: license.name.clone(),
                        license_url: license.url.clone(),
                    },
                ),
            )
        },
    }
}

/// The most bytes of a provider response that are read.
pub const MAX_RESPONSE_BYTES: usize = 262_144;

/// The base address of a provider without trailing slashes.
pub fn provider_base_url(base_url: &str) -> (base: String)
    ensures
        base@ == text::without_end(base_url@, '/'),
{
    strip_end(base_url, '/')
}

/// The address at which a provider defines a normalized word.
pub fn provider_lookup_url(base_url: &str, normalized: &str) -> (url: String)
    ensures
        url@ == base_url@ + "/api/v2/entries/en/"@ + text::ascii_lowered(normalized@),
{
    joined(base_url, "/api/v2/entries/en/").concat(ascii_lower(normalized).as_str())
}

/// Whether a provider response with this status and announced length is read: it is, or the word
/// has no definition, or it fails.
pub fn accept_provider_response(status: u16, content_length: Option<u64>) -> (accepted: Result<
    bool,
    DefinitionError,
>)
    ensures
        accepted == (if status == 404 {
            Ok::<bool, DefinitionError>(false)
        } else if !(200 <= status <= 299) {
            Err(DefinitionError::ProviderStatus(status))
        } else if content_length is Some && content_length->0 > MAX_RESPONSE_BYTES {
            Err(DefinitionError::ResponseTooLarge)
        } else {
            Ok(true)
        }),
{
    if status == 404 {
        return Ok(false);
    }
    if status < 200 || status > 299 {
        return Err(DefinitionError::ProviderStatus(status));
    }
    if let Some(length) = content_length {
        if length > MAX_RESPONSE_BYTES as u64 {
            return Err(DefinitionError::ResponseTooLarge);
        }
    }
    Ok(true)
}

/// Adds a chunk to a response that is read up to its bound; an excessive chunk is not added.
pub fn append_response_chunk(bytes: &mut Vec<u8>, chunk: &[u8]) -> (added: Result<
    (),
    DefinitionError,
>)
    ensures
        added == (if old(bytes)@.len() + chunk@.len() > MAX_RESPONSE_BYTES {
            Err::<(), DefinitionError>(DefinitionError::ResponseTooLarge)
        } else {
            Ok(())
        }),
        final(bytes)@ == (if added is Ok {
            old(bytes)@ + chunk@
        } else {
            old(bytes)@
        }),
{
    if chunk.len() > MAX_RESPONSE_BYTES || bytes.len() > MAX_RESPONSE_BYTES - chunk.len() {
        return Err(DefinitionError::ResponseTooLarge);
    }
    bytes.extend_from_slice(chunk);
    assert(bytes@ =~= old(bytes)@ + chunk@);
    Ok(())
}

/// A parsed definition always has at least one meaning, and every meaning at least one definition;
/// none of these is blank or padded.
pub proof fn parsed_definitions_are_shown(word: Seq<char>, entries: Seq<ProviderEntry>)
    requires
        provider_result(word, entries) matches Ok(Some(_)),
    ensures
        ({
            let definition = provider_result(word, entries)->Ok_0->0;
            &&& 0 < definition.meanings.len() <= 12
            &&& forall|i: int|
                0 <= i < definition.meanings.len() ==> is_shown(#[trigger] definition.meanings[i])
        }),
{
    kept_meanings_are_shown(at_most(entries[0].meanings@, 12));
}

/// Whether a meaning has definitions, and none of them is blank or padded.
pub open spec fn is_shown(meaning: MeaningView) -> bool {
    &&& 0 < meaning.definitions.len() <= 8
    &&& forall|i: int|
        0 <= i < meaning.definitions.len() ==> text::is_unpadded(#[trigger] meaning.definitions[i])
}

proof fn kept_definitions_are_shown(definitions: Seq<String>)
    ensures
        kept_definitions(definitions).len() <= definitions.len(),
        forall|i: int|
            0 <= i < kept_definitions(definitions).len() ==> text::is_unpadded(
                #[trigger] kept_definitions(definitions)[i],
            ),
    decreases definitions.len(),
{
    if definitions.len() > 0 {
        kept_definitions_are_shown(definitions.drop_last());
        text::trimmed_is_unpadded(definitions.last()@);
    }
}

proof fn kept_meanings_are_shown(meanings: Seq<ProviderMeaning>)
    ensures
        kept_meanings(meanings).len() <= meanings.len(),
        forall|i: int|
            0 <= i < kept_meanings(meanings).len() ==> is_shown(
                #[trigger] kept_meanings(meanings)[i],
            ),
    decreases meanings.len(),
{
    if meanings.len() > 0 {
        kept_meanings_are_shown(meanings.drop_last());
        kept_definitions_are_shown(at_most(meanings.last().definitions@, 8));
    }
}

} // verus!
