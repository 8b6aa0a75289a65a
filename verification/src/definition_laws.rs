//! What the definition cache promises.
//!
//! Every law speaks of workflows whose replies a store of [`crate::model`] gives.
use crate::definitions::{
    self, DefinitionError, DefinitionUnavailableReason, LookupView, WordDefinition,
    MISSING_TTL_MS, SUCCESS_TTL_MS,
};
use crate::model::{self, Store, Workflow};
use crate::script::{self, Ask, Outcome, ProviderAnswer, Reply, Trace};
use crate::store::{Op, Row, Verb};
use vstd::prelude::*;

verus! {

/// Asking the provider for a word and remembering the answer.
pub open spec fn fetching(word: Seq<char>, now_ms: i64) -> Workflow<LookupView, DefinitionError> {
    |trace: Trace| definitions::fetch_run(trace, word, now_ms)
}

/// Recalling what is remembered of a word.
pub open spec fn recalling(word: Seq<char>, now_ms: i64) -> Workflow<
    Option<LookupView>,
    DefinitionError,
> {
    |trace: Trace| definitions::load_cached_run(trace, word, now_ms)
}

/// The request for what is remembered of a word.
pub open spec fn recall_op(word: Seq<char>) -> Op {
    Op::select("definition_cache"@).where_text(
        "definition_cache_id"@,
        definitions::cache_id_of(word),
    )
}

/// What a store that has just been told of a word shows of it.
proof fn memory_is_shown(
    store: Store,
    word: Seq<char>,
    status: Seq<char>,
    payload: Option<Seq<char>>,
    now_ms: i64,
    ttl_ms: i64,
    rows: Seq<Row>,
)
    requires
        model::all_shown(
            rows,
            model::executed(
                model::executed(
                    store,
                    definitions::cache_op(word, status, payload, now_ms, ttl_ms),
                ).0,
                recall_op(word),
            ).1,
        ),
    ensures
        rows.len() > 0,
        rows[0].text_at("status"@) == Some(status),
        rows[0].text_at("payload"@) == payload,
        rows[0].integer_at("expires_at_ms"@) matches Some(held) && held == definitions::expiry(
            now_ms,
            ttl_ms,
        ),
{
    let upsert = definitions::cache_op(word, status, payload, now_ms, ttl_ms);
    let after = model::executed(store, upsert).0;
    let select = recall_op(word);
    reveal_strlit("definition_cache_id");
    reveal_strlit("provider");
    reveal_strlit("provider_version");
    reveal_strlit("language");
    reveal_strlit("word");
    reveal_strlit("status");
    reveal_strlit("fetched_at_ms");
    reveal_strlit("expires_at_ms");
    reveal_strlit("payload");
    assert("definition_cache_id"@.len() == 19);
    assert("provider"@.len() == 8);
    assert("provider_version"@.len() == 16);
    assert("language"@.len() == 8);
    assert("word"@.len() == 4);
    assert("status"@.len() == 6);
    assert("fetched_at_ms"@.len() == 13 && "fetched_at_ms"@[0] == 'f');
    assert("expires_at_ms"@.len() == 13 && "expires_at_ms"@[0] == 'e');
    assert("payload"@.len() == 7);
    model::upserted_rows_hold(store, upsert, 0, 5);
    model::upserted_rows_hold(store, upsert, 0, 7);
    model::upserted_rows_hold(store, upsert, 0, 8);
    assert(select.filters =~= upsert.filters);
    let hits = model::found(after.rows("definition_cache"@), select.filters);
    assert(model::executed(after, select).1 == hits);
    assert(model::shows(rows[0], hits[0]));
    model::shown_values(rows[0], hits[0], "status"@);
    model::shown_values(rows[0], hits[0], "payload"@);
    model::shown_values(rows[0], hits[0], "expires_at_ms"@);
}

/// What a recall finds where a store holds only rows of one kind for a word.
proof fn remembered_rows_are_read(
    store: Store,
    word: Seq<char>,
    status: Seq<char>,
    payload: Option<Seq<char>>,
    now_ms: i64,
    ttl_ms: i64,
    after: Store,
    later_ms: i64,
    later_replies: Seq<Reply>,
)
    requires
        after == model::executed(
            store,
            definitions::cache_op(word, status, payload, now_ms, ttl_ms),
        ).0,
        model::served(recalling(word, later_ms), later_replies, after),
        !(model::ending(recalling(word, later_ms), later_replies) is Wait),
    ensures
        later_replies.len() > 0,
        later_replies[0] is Rows,
        later_replies[0]->Rows_0@.len() > 0,
        ({
            let row = later_replies[0]->Rows_0@[0];
            &&& row.text_at("status"@) == Some(status)
            &&& row.text_at("payload"@) == payload
            &&& row.integer_at("expires_at_ms"@) matches Some(held) && held
                == definitions::expiry(now_ms, ttl_ms)
        }),
{
    let reading = recalling(word, later_ms);
    assert(later_replies =~= later_replies.take(later_replies.len() as int));
    assert(model::asked(reading, later_replies, 0) == Some(Ask::Store(recall_op(word))));
    assert(model::served_at(reading, later_replies, after, 0));
    memory_is_shown(
        store,
        word,
        status,
        payload,
        now_ms,
        ttl_ms,
        later_replies[0]->Rows_0@,
    );
}

/// A definition that was fetched is recalled until it expires, without the provider, where the
/// text that was written for it is read as the definition; from then on it is forgotten.
pub proof fn found_definitions_are_recalled(
    word: Seq<char>,
    now_ms: i64,
    replies: Seq<Reply>,
    store: Store,
    definition: WordDefinition,
    later_ms: i64,
    later_replies: Seq<Reply>,
)
    requires
        model::served(fetching(word, now_ms), replies, store),
        replies.len() > 2,
        script::reply_answer(replies[0]) == Some(ProviderAnswer::Found(definition)),
        model::ending(fetching(word, now_ms), replies) == Outcome::<
            LookupView,
            DefinitionError,
        >::Done(LookupView::Found(definition@)),
        model::served(
            recalling(word, later_ms),
            later_replies,
            model::store_after(fetching(word, now_ms), replies, store),
        ),
        !(model::ending(recalling(word, later_ms), later_replies) is Wait),
    ensures
        later_ms >= definitions::expiry(now_ms, SUCCESS_TTL_MS) ==> model::ending(
            recalling(word, later_ms),
            later_replies,
        ) == Outcome::<Option<LookupView>, DefinitionError>::Done(None),
        later_ms < definitions::expiry(now_ms, SUCCESS_TTL_MS) ==> model::asked(
            recalling(word, later_ms),
            later_replies,
            1,
        ) == Some(Ask::DecodeDefinition(script::reply_text(replies[1])->0)) && (
        script::reply_definition(later_replies[1]) == Some(definition) ==> model::ending(
            recalling(word, later_ms),
            later_replies,
        ) == Outcome::<Option<LookupView>, DefinitionError>::Done(
            Some(LookupView::Found(definition@)),
        )),
{
    let writing = fetching(word, now_ms);
    let reading = recalling(word, later_ms);
    let payload = script::reply_text(replies[1]);
    assert(replies.take(1)[0] == replies[0]);
    assert(replies.take(2)[0] == replies[0]);
    assert(replies.take(2)[1] == replies[1]);
    let op = definitions::cache_op(word, "FOUND"@, payload, now_ms, SUCCESS_TTL_MS);
    assert(model::asked(writing, replies, 2) == Some(Ask::Store(op)));
    assert(model::asked(writing, replies, 0) == Some(Ask::LookUpWord(word)));
    assert(model::store_at(writing, replies, store, 0) == store);
    assert(model::store_at(writing, replies, store, 1) == store);
    assert(model::store_at(writing, replies, store, 2) == store);
    let after = model::executed(store, op).0;
    assert(model::store_at(writing, replies, store, 3) == after);
    assert(model::served_at(writing, replies, store, 2));
    if replies.len() > 3 {
        assert(replies.take(3)[0] == replies[0]);
        assert(replies.take(3)[1] == replies[1]);
        assert(replies.take(3)[2] == replies[2]);
        assert(model::served_at(writing, replies, store, 3));
    }
    remembered_rows_are_read(
        store,
        word,
        "FOUND"@,
        payload,
        now_ms,
        SUCCESS_TTL_MS,
        after,
        later_ms,
        later_replies,
    );
    assert(later_replies.take(1)[0] == later_replies[0]);
}

/// That a word has no definition is recalled until that expires, without the provider; from then
/// on it is forgotten.
pub proof fn missing_definitions_are_recalled(
    word: Seq<char>,
    now_ms: i64,
    replies: Seq<Reply>,
    store: Store,
    later_ms: i64,
    later_replies: Seq<Reply>,
)
    requires
        model::served(fetching(word, now_ms), replies, store),
        model::ending(fetching(word, now_ms), replies) == Outcome::<
            LookupView,
            DefinitionError,
        >::Done(LookupView::Missing),
        model::served(
            recalling(word, later_ms),
            later_replies,
            model::store_after(fetching(word, now_ms), replies, store),
        ),
        !(model::ending(recalling(word, later_ms), later_replies) is Wait),
    ensures
        model::ending(recalling(word, later_ms), later_replies) == Outcome::<
            Option<LookupView>,
            DefinitionError,
        >::Done(
            if later_ms < definitions::expiry(now_ms, MISSING_TTL_MS) {
                Some(LookupView::Missing)
            } else {
                None
            },
        ),
{
    let writing = fetching(word, now_ms);
    let reading = recalling(word, later_ms);
    let op = definitions::cache_op(word, "MISSING"@, None, now_ms, MISSING_TTL_MS);
    assert(replies =~= replies.take(replies.len() as int));
    assert(replies.len() > 1);
    assert(replies.take(1)[0] == replies[0]);
    assert(model::asked(writing, replies, 1) == Some(Ask::Store(op)));
    assert(model::asked(writing, replies, 0) == Some(Ask::LookUpWord(word)));
    assert(model::store_at(writing, replies, store, 0) == store);
    assert(model::store_at(writing, replies, store, 1) == store);
    let after = model::executed(store, op).0;
    assert(model::store_at(writing, replies, store, 2) == after);
    assert(model::served_at(writing, replies, store, 1));
    if replies.len() > 2 {
        assert(replies.take(2)[0] == replies[0]);
        assert(replies.take(2)[1] == replies[1]);
        assert(model::served_at(writing, replies, store, 2));
    }
    remembered_rows_are_read(
        store,
        word,
        "MISSING"@,
        None,
        now_ms,
        MISSING_TTL_MS,
        after,
        later_ms,
        later_replies,
    );
    reveal_strlit("FOUND");
    reveal_strlit("MISSING");
    assert("FOUND"@.len() == 5);
    assert("MISSING"@.len() == 7);
}

/// A provider that fails is not remembered: nothing is written.
pub proof fn failures_are_not_remembered(
    word: Seq<char>,
    now_ms: i64,
    replies: Seq<Reply>,
    store: Store,
    reason: DefinitionUnavailableReason,
)
    requires
        model::served(fetching(word, now_ms), replies, store),
        model::ending(fetching(word, now_ms), replies) == Outcome::<
            LookupView,
            DefinitionError,
        >::Done(LookupView::Unavailable(reason)),
    ensures
        model::store_after(fetching(word, now_ms), replies, store) == store,
{
    let writing = fetching(word, now_ms);
    assert(model::asked(writing, replies, 0) == Some(Ask::LookUpWord(word)));
    assert(model::store_at(writing, replies, store, 0) == store);
    assert(model::store_at(writing, replies, store, 1) == store);
    if replies.len() > 1 {
        assert(replies.take(1)[0] == replies[0]);
        assert(model::served_at(writing, replies, store, 1));
    }
}

/// Without a provider a lookup asks none, whatever it is told.
pub proof fn disabled_lookups_ask_no_provider(trace: Trace, word: Seq<char>, now_ms: i64)
    ensures
        definitions::lookup_definition_run(trace, false, word, now_ms).outcome matches
            Outcome::Wait(ask) ==> !(ask is LookUpWord),
        definitions::lookup_definition_run(trace, false, word, now_ms).outcome matches
            Outcome::Wait(Ask::Store(op)) ==> op.verb == Verb::Select,
{
}

/// Looking a word up, with a provider.
pub open spec fn looking_up(word: Seq<char>, now_ms: i64) -> Workflow<LookupView, DefinitionError> {
    |trace: Trace| definitions::lookup_definition_run(trace, true, word, now_ms)
}

/// Whether a store remembers nothing of a word.
pub open spec fn nothing_is_remembered(store: Store, word: Seq<char>) -> bool {
    model::executed(store, recall_op(word)).1.len() == 0
}

/// Whether a lookup has all its replies, each of the kind that was asked for.
pub open spec fn comes_to_an_end(
    workflow: Workflow<LookupView, DefinitionError>,
    replies: Seq<Reply>,
) -> bool {
    !(model::ending(workflow, replies) is Wait) && !(model::ending(workflow, replies) is Mismatch)
}

/// The first replies are the same in a longer list.
proof fn first_replies(replies: Seq<Reply>, count: int)
    requires
        0 <= count <= replies.len(),
    ensures
        forall|i: int| 0 <= i < count ==> #[trigger] replies.take(count)[i] == replies[i],
{
}

/// What a lookup of a word of which nothing is remembered asks, up to the provider.
proof fn lookup_reaches_the_provider(
    written: Seq<char>,
    word: Seq<char>,
    now_ms: i64,
    replies: Seq<Reply>,
    store: Store,
)
    requires
        nothing_is_remembered(store, word),
        model::served(looking_up(written, now_ms), replies, store),
        replies.len() > 0 ==> script::reply_text(replies[0]) == Some(word),
        replies.len() > 3,
    ensures
        model::asked(looking_up(written, now_ms), replies, 4) == Some(Ask::LookUpWord(word)),
        model::store_at(looking_up(written, now_ms), replies, store, 4) == store,
        replies[1] is Rows && replies[1]->Rows_0@.len() == 0,
        replies[2] is Accepted || replies[2] is Refused,
        replies[3] is Rows && replies[3]->Rows_0@.len() == 0,
{
    let workflow = looking_up(written, now_ms);
    let select = recall_op(word);
    first_replies(replies, 1);
    first_replies(replies, 2);
    first_replies(replies, 3);
    first_replies(replies, 4);
    assert(model::asked(workflow, replies, 0) == Some(Ask::NormalizeWord(written)));
    assert(model::store_at(workflow, replies, store, 0) == store);
    assert(model::store_at(workflow, replies, store, 1) == store);
    assert(replies.take(1)[0] == replies[0]);
    assert(model::asked(workflow, replies, 1) == Some(Ask::Store(select)));
    assert(model::served_at(workflow, replies, store, 1));
    assert(model::store_at(workflow, replies, store, 2) == store);
    assert(replies.take(2)[0] == replies[0] && replies.take(2)[1] == replies[1]);
    assert(model::asked(workflow, replies, 2) == Some(
        Ask::HoldLookup(definitions::cache_id_of(word)),
    ));
    assert(model::store_at(workflow, replies, store, 3) == store);
    assert(model::served_at(workflow, replies, store, 3));
    assert(replies.take(3)[0] == replies[0] && replies.take(3)[1] == replies[1] && replies.take(3)[2]
        == replies[2]);
    assert(model::asked(workflow, replies, 3) == Some(Ask::Store(select)));
    assert(model::store_at(workflow, replies, store, 4) == store);
    assert(replies.take(4)[0] == replies[0] && replies.take(4)[1] == replies[1] && replies.take(4)[2]
        == replies[2] && replies.take(4)[3] == replies[3]);
}

/// What a lookup that reached the provider leaves behind.
proof fn answer_is_kept(
    written: Seq<char>,
    word: Seq<char>,
    now_ms: i64,
    replies: Seq<Reply>,
    store: Store,
)
    requires
        nothing_is_remembered(store, word),
        model::served(looking_up(written, now_ms), replies, store),
        script::reply_text(replies[0]) == Some(word),
        model::ending(looking_up(written, now_ms), replies) is Done,
    ensures
        replies.len() > 4,
        ({
            let after = model::store_after(looking_up(written, now_ms), replies, store);
            let value = model::ending(looking_up(written, now_ms), replies)->Done_0;
            match script::reply_answer(replies[4]) {
                Some(ProviderAnswer::Found(definition)) => {
                    &&& value == LookupView::Found(definition@)
                    &&& script::reply_text(replies[5]) is Some
                    &&& after == model::executed(
                        store,
                        definitions::cache_op(
                            word,
                            "FOUND"@,
                            script::reply_text(replies[5]),
                            now_ms,
                            SUCCESS_TTL_MS,
                        ),
                    ).0
                },
                Some(ProviderAnswer::Missing) => {
                    &&& value == LookupView::Missing
                    &&& after == model::executed(
                        store,
                        definitions::cache_op(word, "MISSING"@, None, now_ms, MISSING_TTL_MS),
                    ).0
                },
                _ => after == store,
            }
        }),
{
    let workflow = looking_up(written, now_ms);
    let count = replies.len() as int;
    assert(replies.take(count) =~= replies);
    lookup_needs_replies(written, word, now_ms, replies, store);
    lookup_reaches_the_provider(written, word, now_ms, replies, store);
    first_replies(replies, 4);
    first_replies(replies, 5);
    assert(model::store_at(workflow, replies, store, 5) == store);
    assert(replies.take(5)[0] == replies[0] && replies.take(5)[1] == replies[1] && replies.take(5)[2]
        == replies[2] && replies.take(5)[3] == replies[3] && replies.take(5)[4] == replies[4]);
    match script::reply_answer(replies[4]) {
        Some(ProviderAnswer::Found(definition)) => {
            assert(replies.len() > 6);
            first_replies(replies, 6);
            assert(model::asked(workflow, replies, 5) == Some(Ask::EncodeDefinition(definition)));
            assert(model::store_at(workflow, replies, store, 6) == store);
            assert(replies.take(6)[0] == replies[0] && replies.take(6)[1] == replies[1]
                && replies.take(6)[2] == replies[2] && replies.take(6)[3] == replies[3]
                && replies.take(6)[4] == replies[4] && replies.take(6)[5] == replies[5]);
            let op = definitions::cache_op(
                word,
                "FOUND"@,
                script::reply_text(replies[5]),
                now_ms,
                SUCCESS_TTL_MS,
            );
            assert(model::asked(workflow, replies, 6) == Some(Ask::Store(op)));
            assert(model::store_at(workflow, replies, store, 7) == model::executed(store, op).0);
            assert(model::served_at(workflow, replies, store, 6));
            if replies.len() > 7 {
                first_replies(replies, 7);
                assert(replies.take(7)[0] == replies[0] && replies.take(7)[1] == replies[1]
                    && replies.take(7)[2] == replies[2] && replies.take(7)[3] == replies[3]
                    && replies.take(7)[4] == replies[4] && replies.take(7)[5] == replies[5]
                    && replies.take(7)[6] == replies[6]);
                assert(model::served_at(workflow, replies, store, 7));
            }
        },
        Some(ProviderAnswer::Missing) => {
            assert(replies.len() > 5);
            first_replies(replies, 6);
            let op = definitions::cache_op(word, "MISSING"@, None, now_ms, MISSING_TTL_MS);
            assert(model::asked(workflow, replies, 5) == Some(Ask::Store(op)));
            assert(model::store_at(workflow, replies, store, 6) == model::executed(store, op).0);
            assert(model::served_at(workflow, replies, store, 5));
            if replies.len() > 6 {
                assert(replies.take(6)[0] == replies[0] && replies.take(6)[1] == replies[1]
                    && replies.take(6)[2] == replies[2] && replies.take(6)[3] == replies[3]
                    && replies.take(6)[4] == replies[4] && replies.take(6)[5] == replies[5]);
                assert(model::served_at(workflow, replies, store, 6));
            }
        },
        _ => {
            if replies.len() > 5 {
                assert(model::served_at(workflow, replies, store, 5));
            }
        },
    }
}

/// A lookup of a word of which nothing is remembered does not end before the provider is asked.
proof fn lookup_needs_replies(
    written: Seq<char>,
    word: Seq<char>,
    now_ms: i64,
    replies: Seq<Reply>,
    store: Store,
)
    requires
        nothing_is_remembered(store, word),
        model::served(looking_up(written, now_ms), replies, store),
        script::reply_text(replies[0]) == Some(word),
        comes_to_an_end(looking_up(written, now_ms), replies),
    ensures
        replies.len() > 4,
{
    let workflow = looking_up(written, now_ms);
    let count = replies.len() as int;
    assert(replies.take(count) =~= replies);
    if count > 0 {
        assert(model::asked(workflow, replies, 0) == Some(Ask::NormalizeWord(written)));
        assert(model::store_at(workflow, replies, store, 0) == store);
    assert(model::store_at(workflow, replies, store, 1) == store);
    }
    if count > 1 {
        assert(replies.take(1)[0] == replies[0]);
        assert(model::asked(workflow, replies, 1) == Some(Ask::Store(recall_op(word))));
        assert(model::served_at(workflow, replies, store, 1));
        assert(replies.take(2)[0] == replies[0] && replies.take(2)[1] == replies[1]);
        assert(model::asked(workflow, replies, 2) == Some(
            Ask::HoldLookup(definitions::cache_id_of(word)),
        ));
    }
    if count > 2 {
        assert(model::served_at(workflow, replies, store, 2));
        assert(replies.take(3)[0] == replies[0] && replies.take(3)[1] == replies[1]
            && replies.take(3)[2] == replies[2]);
        if count > 3 {
            assert(model::served_at(workflow, replies, store, 3));
        }
    }
    if count > 3 {
        lookup_reaches_the_provider(written, word, now_ms, replies, store);
        if count == 4 {
            assert(model::asked(workflow, replies, 4) is Some);
        }
    }
}

/// Whether a lookup asks the provider at some point.
pub open spec fn asks_the_provider(
    written: Seq<char>,
    now_ms: i64,
    replies: Seq<Reply>,
) -> bool {
    exists|place: int|
        0 <= place <= replies.len() && (#[trigger] model::asked(
            looking_up(written, now_ms),
            replies,
            place,
        )) matches Some(Ask::LookUpWord(_))
}

/// What a lookup does with a word that is remembered and not expired.
proof fn memory_answers(
    written: Seq<char>,
    word: Seq<char>,
    later_ms: i64,
    replies: Seq<Reply>,
    store: Store,
    status: Seq<char>,
    payload: Option<Seq<char>>,
    now_ms: i64,
    ttl_ms: i64,
)
    requires
        status == "FOUND"@ && payload is Some || status == "MISSING"@,
        later_ms < definitions::expiry(now_ms, ttl_ms),
        script::reply_text(replies[0]) == Some(word),
        model::served(
            looking_up(written, later_ms),
            replies,
            model::executed(
                store,
                definitions::cache_op(word, status, payload, now_ms, ttl_ms),
            ).0,
        ),
        comes_to_an_end(looking_up(written, later_ms), replies),
    ensures
        !asks_the_provider(written, later_ms, replies),
        status == "MISSING"@ ==> model::ending(looking_up(written, later_ms), replies) == Outcome::<
            LookupView,
            DefinitionError,
        >::Done(LookupView::Missing),
        status == "FOUND"@ ==> model::asked(looking_up(written, later_ms), replies, 2) == Some(
            Ask::DecodeDefinition(payload->0),
        ) && (script::reply_definition(replies[2]) matches Some(definition) ==> model::ending(
            looking_up(written, later_ms),
            replies,
        ) == Outcome::<LookupView, DefinitionError>::Done(LookupView::Found(definition@))),
{
    let workflow = looking_up(written, later_ms);
    let after = model::executed(
        store,
        definitions::cache_op(word, status, payload, now_ms, ttl_ms),
    ).0;
    let count = replies.len() as int;
    assert(replies.take(count) =~= replies);
    reveal_strlit("FOUND");
    reveal_strlit("MISSING");
    assert("FOUND"@.len() == 5);
    assert("MISSING"@.len() == 7);
    assert(count > 0);
    assert(model::asked(workflow, replies, 0) == Some(Ask::NormalizeWord(written)));
    assert(model::store_at(workflow, replies, after, 0) == after);
    assert(model::store_at(workflow, replies, after, 1) == after);
    assert(count > 1);
    assert(replies.take(1)[0] == replies[0]);
    assert(model::asked(workflow, replies, 1) == Some(Ask::Store(recall_op(word))));
    assert(model::served_at(workflow, replies, after, 1));
    memory_is_shown(store, word, status, payload, now_ms, ttl_ms, replies[1]->Rows_0@);
    assert(replies.take(2)[0] == replies[0] && replies.take(2)[1] == replies[1]);
    assert forall|place: int| 0 <= place <= replies.len() implies !((#[trigger] model::asked(
        workflow,
        replies,
        place,
    )) matches Some(Ask::LookUpWord(_))) by {
        let cut = replies.take(place);
        if place > 0 {
            assert(cut[0] == replies[0]);
        }
        if place > 1 {
            assert(cut[1] == replies[1]);
        }
    }
}

/// A provider is asked for a definition once: when a lookup has found one, later lookups of the
/// word, however it is written, read what was kept and give the same definition without asking the
/// provider, until it expires; from then on the provider is asked again.
pub proof fn found_words_are_looked_up_once(
    written: Seq<char>,
    word: Seq<char>,
    now_ms: i64,
    replies: Seq<Reply>,
    store: Store,
    definition: WordDefinition,
    later_written: Seq<char>,
    later_ms: i64,
    later_replies: Seq<Reply>,
)
    requires
        nothing_is_remembered(store, word),
        model::served(looking_up(written, now_ms), replies, store),
        script::reply_text(replies[0]) == Some(word),
        model::ending(looking_up(written, now_ms), replies) is Done,
        script::reply_answer(replies[4]) == Some(ProviderAnswer::Found(definition)),
        script::reply_text(later_replies[0]) == Some(word),
        model::served(
            looking_up(later_written, later_ms),
            later_replies,
            model::store_after(looking_up(written, now_ms), replies, store),
        ),
        comes_to_an_end(looking_up(later_written, later_ms), later_replies),
    ensures
        model::ending(looking_up(written, now_ms), replies)->Done_0 == LookupView::Found(
            definition@,
        ),
        later_ms < definitions::expiry(now_ms, SUCCESS_TTL_MS) ==> {
            &&& !asks_the_provider(later_written, later_ms, later_replies)
            &&& model::asked(looking_up(later_written, later_ms), later_replies, 2) == Some(
                Ask::DecodeDefinition(script::reply_text(replies[5])->0),
            )
            &&& script::reply_definition(later_replies[2]) == Some(definition) ==> model::ending(
                looking_up(later_written, later_ms),
                later_replies,
            ) == Outcome::<LookupView, DefinitionError>::Done(LookupView::Found(definition@))
        },
        later_ms >= definitions::expiry(now_ms, SUCCESS_TTL_MS) ==> asks_the_provider(
            later_written,
            later_ms,
            later_replies,
        ),
{
    answer_is_kept(written, word, now_ms, replies, store);
    let payload = script::reply_text(replies[5]);
    if later_ms < definitions::expiry(now_ms, SUCCESS_TTL_MS) {
        memory_answers(
            later_written,
            word,
            later_ms,
            later_replies,
            store,
            "FOUND"@,
            payload,
            now_ms,
            SUCCESS_TTL_MS,
        );
    } else {
        expired_memory_asks(
            later_written,
            word,
            later_ms,
            later_replies,
            store,
            "FOUND"@,
            payload,
            now_ms,
            SUCCESS_TTL_MS,
        );
    }
}

/// That the provider knows no definition is asked once: later lookups give the same answer without
/// asking the provider, until it expires; from then on the provider is asked again.
pub proof fn missing_words_are_looked_up_once(
    written: Seq<char>,
    word: Seq<char>,
    now_ms: i64,
    replies: Seq<Reply>,
    store: Store,
    later_written: Seq<char>,
    later_ms: i64,
    later_replies: Seq<Reply>,
)
    requires
        nothing_is_remembered(store, word),
        model::served(looking_up(written, now_ms), replies, store),
        script::reply_text(replies[0]) == Some(word),
        model::ending(looking_up(written, now_ms), replies) is Done,
        script::reply_answer(replies[4]) == Some(ProviderAnswer::Missing),
        script::reply_text(later_replies[0]) == Some(word),
        model::served(
            looking_up(later_written, later_ms),
            later_replies,
            model::store_after(looking_up(written, now_ms), replies, store),
        ),
        comes_to_an_end(looking_up(later_written, later_ms), later_replies),
    ensures
        model::ending(looking_up(written, now_ms), replies)->Done_0 == LookupView::Missing,
        later_ms < definitions::expiry(now_ms, MISSING_TTL_MS) ==> {
            &&& !asks_the_provider(later_written, later_ms, later_replies)
            &&& model::ending(looking_up(later_written, later_ms), later_replies) == Outcome::<
                LookupView,
                DefinitionError,
            >::Done(LookupView::Missing)
        },
        later_ms >= definitions::expiry(now_ms, MISSING_TTL_MS) ==> asks_the_provider(
            later_written,
            later_ms,
            later_replies,
        ),
{
    answer_is_kept(written, word, now_ms, replies, store);
    if later_ms < definitions::expiry(now_ms, MISSING_TTL_MS) {
        memory_answers(
            later_written,
            word,
            later_ms,
            later_replies,
            store,
            "MISSING"@,
            None,
            now_ms,
            MISSING_TTL_MS,
        );
    } else {
        expired_memory_asks(
            later_written,
            word,
            later_ms,
            later_replies,
            store,
            "MISSING"@,
            None,
            now_ms,
            MISSING_TTL_MS,
        );
    }
}

/// A failure of the provider is not remembered: the next lookup asks the provider again.
pub proof fn failed_lookups_are_tried_again(
    written: Seq<char>,
    word: Seq<char>,
    now_ms: i64,
    replies: Seq<Reply>,
    store: Store,
    later_written: Seq<char>,
    later_ms: i64,
    later_replies: Seq<Reply>,
)
    requires
        nothing_is_remembered(store, word),
        model::served(looking_up(written, now_ms), replies, store),
        script::reply_text(replies[0]) == Some(word),
        model::ending(looking_up(written, now_ms), replies) matches Outcome::Done(
            LookupView::Unavailable(_),
        ),
        script::reply_text(later_replies[0]) == Some(word),
        model::served(
            looking_up(later_written, later_ms),
            later_replies,
            model::store_after(looking_up(written, now_ms), replies, store),
        ),
        comes_to_an_end(looking_up(later_written, later_ms), later_replies),
    ensures
        model::store_after(looking_up(written, now_ms), replies, store) == store,
        asks_the_provider(later_written, later_ms, later_replies),
{
    answer_is_kept(written, word, now_ms, replies, store);
    lookup_needs_replies(later_written, word, later_ms, later_replies, store);
    lookup_reaches_the_provider(later_written, word, later_ms, later_replies, store);
    assert(model::asked(looking_up(later_written, later_ms), later_replies, 4) matches Some(
        Ask::LookUpWord(_),
    ));
}

/// What has expired is not recalled: the provider is asked.
proof fn expired_memory_asks(
    written: Seq<char>,
    word: Seq<char>,
    later_ms: i64,
    replies: Seq<Reply>,
    store: Store,
    status: Seq<char>,
    payload: Option<Seq<char>>,
    now_ms: i64,
    ttl_ms: i64,
)
    requires
        later_ms >= definitions::expiry(now_ms, ttl_ms),
        script::reply_text(replies[0]) == Some(word),
        model::served(
            looking_up(written, later_ms),
            replies,
            model::executed(
                store,
                definitions::cache_op(word, status, payload, now_ms, ttl_ms),
            ).0,
        ),
        comes_to_an_end(looking_up(written, later_ms), replies),
    ensures
        asks_the_provider(written, later_ms, replies),
{
    let workflow = looking_up(written, later_ms);
    let after = model::executed(
        store,
        definitions::cache_op(word, status, payload, now_ms, ttl_ms),
    ).0;
    let select = recall_op(word);
    let count = replies.len() as int;
    assert(replies.take(count) =~= replies);
    assert(count > 0);
    assert(model::asked(workflow, replies, 0) == Some(Ask::NormalizeWord(written)));
    assert(model::store_at(workflow, replies, after, 0) == after);
    assert(model::store_at(workflow, replies, after, 1) == after);
    assert(count > 1);
    assert(replies.take(1)[0] == replies[0]);
    assert(model::asked(workflow, replies, 1) == Some(Ask::Store(select)));
    assert(model::served_at(workflow, replies, after, 1));
    memory_is_shown(store, word, status, payload, now_ms, ttl_ms, replies[1]->Rows_0@);
    assert(model::store_at(workflow, replies, after, 2) == after);
    assert(count > 2);
    assert(replies.take(2)[0] == replies[0] && replies.take(2)[1] == replies[1]);
    assert(model::asked(workflow, replies, 2) == Some(
        Ask::HoldLookup(definitions::cache_id_of(word)),
    ));
    assert(model::store_at(workflow, replies, after, 3) == after);
    assert(replies.take(3)[0] == replies[0] && replies.take(3)[1] == replies[1] && replies.take(3)[2]
        == replies[2]);
    if count > 3 {
        assert(model::served_at(workflow, replies, after, 3));
        assert(model::asked(workflow, replies, 3) == Some(Ask::Store(select)));
        memory_is_shown(store, word, status, payload, now_ms, ttl_ms, replies[3]->Rows_0@);
        assert(replies.take(4)[0] == replies[0] && replies.take(4)[1] == replies[1]
            && replies.take(4)[2] == replies[2] && replies.take(4)[3] == replies[3]);
        assert(model::asked(workflow, replies, 4) matches Some(Ask::LookUpWord(_)));
    }
}

} // verus!
