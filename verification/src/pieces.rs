//! What a call of one of the smaller functions does.

use vstd::prelude::*;

use crate::cache::CollectionCache;
use crate::calls::{object, stops, text_or_none, texts};
use crate::conn::{
    Answer, AnswerView, Conn, ExecuteSqlRequest, Reply, ReplyView, Request, RequestView,
    SpannerType, SyncResultSet,
};
use crate::db::{CollectionLock, DbView, SpannerDb};
use crate::decimal::{
    decimal, decimal_text, digits_value, is_digits, lemma_natural_round_trip, natural,
    natural_text, read_i32, read_i64,
};
use crate::error::{joined, outcome, DbError, DbErrorKind, ErrorView, Stop, StopView};
use crate::pages::{id_param, law_ids_are_bound};
use crate::params::{BsoQueryParams, PutBso, UserIdentifier};
use crate::puts::lemma_names_differ;
use crate::queries::{law_query_conditions, lists};
use crate::read::time_param;
use crate::results::{GetBso, GetBsos, PageView};
use crate::rows::{i32_at, i64_at, stamp_at, text_at};
use crate::statements::{has_text, time_of};
use crate::stored::{lemma_signed, signed};
use crate::table::{lemma_map_of, Key, Table, Value};
use crate::text::has;
use crate::timestamp::{rfc3339_instant, rfc3339_text, SyncTimestamp};

verus! {

/// The text of a query has each condition that the query gives, whatever else it gives, and no
/// condition that it does not; each id is listed.
pub proof fn law_query_call(query: BsoQueryParams, sql: String)
    requires
        call_ensures(BsoQueryParams::sql, (&query,), sql),
    ensures
        has(sql@, "userid = @userid"@),
        has(sql@, " AND collection = @collectionid"@),
        has(sql@, " AND ttl > @timestamp"@),
        has(sql@, " AND modified > @newer"@) <==> query.newer is Some,
        has(sql@, " AND modified < @older"@) <==> query.older is Some,
        has(sql@, " AND id IN ("@) <==> query.ids.len() > 0,
        forall|i: nat| i < query.ids.len() ==> #[trigger] lists(sql@, i),
        query.sort is Index ==> has(sql@, " ORDER BY sortindex DESC"@),
        query.sort is Newest ==> has(sql@, " ORDER BY modified DESC"@),
        query.sort is Oldest ==> has(sql@, " ORDER BY modified ASC"@),
        query.limit matches Some(limit) ==> has(sql@, " LIMIT "@ + decimal(limit + 1)),
        query.limit is None ==> has(sql@, " LIMIT -1"@),
        query.offset matches Some(offset) ==> (offset != 0 ==> has(
            sql@,
            " OFFSET "@ + decimal(signed(offset)),
        )),
{
    law_query_conditions(query@);
}

/// A page has the first objects in their order, as many as are asked for at most. It says where
/// the next page starts exactly where there are more.
pub proof fn law_page_call(
    query: BsoQueryParams,
    rows: Vec<GetBso>,
    result: Result<GetBsos, Stop>,
)
    requires
        call_ensures(BsoQueryParams::page, (&query, rows), result),
    ensures
        ({
            let start: int = match query.offset {
                Some(offset) => signed(offset),
                None => 0,
            };
            match query.limit {
                Some(limit) if rows.len() > limit => if start + limit > i64::MAX {
                    result is Err
                } else {
                    result matches Ok(page) && {
                        &&& page.offset == Some((start + limit) as i64)
                        &&& page.items.len() == rows.len() - 1
                        &&& forall|i: int|
                            0 <= i < page.items.len() ==> object(
                                #[trigger] page.items[i],
                                rows[i].deep_view(),
                            )
                    }
                },
                _ => result matches Ok(page) && {
                    &&& page.offset is None
                    &&& page.items.len() == rows.len()
                    &&& forall|i: int|
                        0 <= i < page.items.len() ==> object(
                            #[trigger] page.items[i],
                            rows[i].deep_view(),
                        )
                },
            }
        }),
{
    if let Some(offset) = query.offset {
        lemma_signed(offset);
    }
    let all = rows.deep_view();
    assert(all.len() == rows.len());
    assert(query@.offset == query.offset && query@.limit == query.limit);
    assert(outcome(result) == query@.page(all));
    if let Ok(page) = result {
        let seen = page.deep_view();
        assert(query@.page(all) == Ok::<PageView, StopView>(seen));
        assert(seen.items.len() == page.items.len());
        assert(seen.items.len() <= all.len());
        assert forall|i: int| 0 <= i < page.items.len() implies object(
            #[trigger] page.items[i],
            rows[i].deep_view(),
        ) by {
            assert(seen.items[i] == page.items[i].deep_view());
            assert(rows.deep_view()[i] == rows[i].deep_view());
        }
    }
}

/// Most tables know a user by the last 32 bits of the id.
pub proof fn law_user_call(user_id: UserIdentifier, user: u32)
    requires
        call_ensures(UserIdentifier::as_u32, (user_id,), user),
    ensures
        user == user_id.legacy_id % 0x1_0000_0000,
{
    let id = user_id.legacy_id;
    assert((id as u32) as u64 == id % 0x1_0000_0000) by (bit_vector);
}

/// A parameter has the value that was set last, and the others keep theirs; so do the types.
pub proof fn law_set_call(request: &mut ExecuteSqlRequest, name: &str, value: String)
    requires
        call_ensures(ExecuteSqlRequest::set, (request, name, value), ()),
    ensures
        final(request).sql@ == old(request).sql@,
        final(request).seqno@ == old(request).seqno@,
        final(request).params@ == old(request).params@.insert(name@, value@),
        final(request).param_types@ == old(request).param_types@,
        final(request).transaction.deep_view() == old(request).transaction.deep_view(),
{
    assert(final(request).deep_view().params == final(request).params@);
}

/// The type of a parameter is the one that was set last, and the others keep theirs.
pub proof fn law_set_type_call(request: &mut ExecuteSqlRequest, name: &str, of: SpannerType)
    requires
        call_ensures(ExecuteSqlRequest::set_type, (request, name, of), ()),
    ensures
        final(request).sql@ == old(request).sql@,
        final(request).seqno@ == old(request).seqno@,
        final(request).params@ == old(request).params@,
        final(request).param_types@ == old(request).param_types@.insert(name@, of),
        final(request).transaction.deep_view() == old(request).transaction.deep_view(),
{
    assert(final(request).deep_view().params == final(request).params@);
}

/// What is seen of a request are its parts.
pub proof fn law_request_is_seen(request: Request)
    ensures
        match request {
            Request::Begin(mode) => request.deep_view() == RequestView::Begin(mode),
            Request::Execute(sql) => request.deep_view() matches RequestView::Execute(seen) && {
                &&& seen.sql == sql.sql@
                &&& match sql.transaction {
                    Some(transaction) => seen.transaction matches Some(id) && text_or_none(
                        transaction.id,
                        id,
                    ),
                    None => seen.transaction is None,
                }
                &&& seen.seqno == sql.seqno@
                &&& seen.params == sql.params@
                &&& seen.param_types == sql.param_types@
            },
            Request::Commit(id) => request.deep_view() matches RequestView::Commit(seen)
                && text_or_none(id, seen),
            Request::Rollback(id) => request.deep_view() matches RequestView::Rollback(seen)
                && text_or_none(id, seen),
        },
{
}

/// Rows, as they are seen.
pub open spec fn table_of(rows: Seq<Vec<String>>, seen: Seq<Seq<Seq<char>>>) -> bool {
    &&& rows.len() == seen.len()
    &&& forall|i: int| 0 <= i < rows.len() ==> texts((#[trigger] rows[i])@, seen[i])
}

/// What is seen of a result are its rows and what it says of how many rows changed.
pub proof fn law_result_is_seen(result: SyncResultSet)
    ensures
        table_of(result.rows@, result.deep_view().rows),
        match result.stats {
            Some(stats) => result.deep_view().stats matches Some(seen) && text_or_none(
                stats.row_count_exact,
                seen,
            ),
            None => result.deep_view().stats is None,
        },
{
    let seen = result.deep_view().rows;
    assert forall|i: int| 0 <= i < result.rows.len() implies texts(
        (#[trigger] result.rows[i])@,
        seen[i],
    ) by {
        assert(seen[i] == result.rows[i].deep_view());
    }
}

/// What is seen of an answer are its parts.
pub proof fn law_answer_is_seen(answer: Answer)
    ensures
        match answer {
            Answer::Reply(reply) => answer.deep_view() matches AnswerView::Reply(seen)
                && text_or_none(reply.transaction_id, seen.transaction_id) && seen.result
                == reply.result.deep_view(),
            Answer::Error(text) => answer.deep_view() == AnswerView::Error(text@),
        },
{
}

/// A request goes behind those that were sent. The reply to it is the answer on record at its
/// place; an error there is Spanner's, and where there is none the request waits.
pub proof fn law_ask_call(conn: &mut Conn, request: Request, result: Result<Reply, Stop>)
    requires
        call_ensures(Conn::ask, (conn, request), result),
    ensures
        final(conn)@.sent == old(conn)@.sent.push(request.deep_view()),
        final(conn)@.answers == old(conn)@.answers,
        final(conn)@.use_test_transactions == old(conn)@.use_test_transactions,
        ({
            let n = old(conn)@.sent.len();
            if n < old(conn)@.answers.len() {
                match old(conn)@.answers[n as int] {
                    AnswerView::Reply(seen) => result matches Ok(reply) && text_or_none(
                        reply.transaction_id,
                        seen.transaction_id,
                    ) && reply.result.deep_view() == seen.result,
                    AnswerView::Error(text) => result matches Err(stop) && stops(
                        stop,
                        StopView::Failed(ErrorView::Spanner(text)),
                    ),
                }
            } else {
                result matches Err(stop) && stops(stop, StopView::Waiting)
            }
        }),
{
    if let Ok(reply) = result {
        assert(reply.deep_view() == (ReplyView {
            transaction_id: reply.transaction_id.deep_view(),
            result: reply.result.deep_view(),
        }));
    }
}

/// An answer goes behind those on record, and nothing else changes.
pub proof fn law_answer_call(conn: &mut Conn, answer: Answer)
    requires
        call_ensures(Conn::answer, (conn, answer), ()),
    ensures
        final(conn)@.sent == old(conn)@.sent,
        final(conn)@.answers == old(conn)@.answers.push(answer.deep_view()),
        final(conn)@.use_test_transactions == old(conn)@.use_test_transactions,
{
}

/// A new connection has sent nothing and has no answers, and is for tests where it says so.
pub proof fn law_new_connection(use_test_transactions: bool, conn: Conn, yes: bool)
    requires
        call_ensures(Conn::new, (use_test_transactions,), conn),
        call_ensures(Conn::use_test_transactions, (&conn,), yes),
    ensures
        conn@.sent.len() == 0,
        conn@.answers.len() == 0,
        conn@.use_test_transactions == use_test_transactions,
        yes == use_test_transactions,
{
}

/// The request that waits is the first that has no answer, and there is one exactly where fewer
/// answers are on record than requests were sent.
pub proof fn law_pending_call(conn: Conn, request: Option<&Request>, sent: &Vec<Request>)
    requires
        call_ensures(Conn::pending, (&conn,), request),
        call_ensures(Conn::sent, (&conn,), sent),
    ensures
        request is Some <==> conn@.answers.len() < sent.len(),
        request matches Some(request) ==> request.deep_view()
            == sent[conn@.answers.len() as int].deep_view(),
        sent.len() == conn@.sent.len(),
        forall|i: int| 0 <= i < sent.len() ==> (#[trigger] sent[i]).deep_view() == conn@.sent[i],
{
    let seen = sent.deep_view();
    assert forall|i: int| 0 <= i < sent.len() implies (#[trigger] sent[i]).deep_view()
        == conn@.sent[i] by {
        assert(seen[i] == sent[i].deep_view());
    }
}

/// What a cache was given last of a name or an id is what it gives back, and it gives back what
/// it was given before of the others.
pub proof fn law_cache_call(cache: &mut CollectionCache, id: i32, name: String)
    requires
        call_ensures(CollectionCache::put, (cache, id, name), ()),
    ensures
        final(cache)@.ids == old(cache)@.ids.insert(name@, id),
        final(cache)@.names == old(cache)@.names.insert(id, name@),
{
}

/// A cache gives back the id of a name and the name of an id that it has, and nothing else.
pub proof fn law_cached_call(
    cache: CollectionCache,
    name: String,
    id: i32,
    found_id: Option<i32>,
    found_name: Option<String>,
)
    requires
        call_ensures(CollectionCache::get_id, (&cache, &name), found_id),
        call_ensures(CollectionCache::get_name, (&cache, id), found_name),
    ensures
        found_id is Some <==> cache@.ids.contains_key(name@),
        found_id matches Some(found) ==> found == cache@.ids[name@],
        found_name is Some <==> cache@.names.contains_key(id),
        found_name matches Some(found) ==> found@ == cache@.names[id],
{
}

/// A new cache knows nothing.
pub proof fn law_new_cache(cache: CollectionCache)
    requires
        call_ensures(CollectionCache::new, (), cache),
    ensures
        forall|name: Seq<char>| !(#[trigger] cache@.ids.contains_key(name)),
        forall|id: i32| !(#[trigger] cache@.names.contains_key(id)),
{
}

/// A cache that takes another in knows what either knows, and of what both know what the other
/// knows.
pub proof fn law_cache_takes_in(cache: &mut CollectionCache, other: CollectionCache)
    requires
        call_ensures(CollectionCache::absorb, (cache, &other), ()),
    ensures
        forall|name: Seq<char>|
            #![trigger final(cache)@.ids.contains_key(name)]
            {
                &&& final(cache)@.ids.contains_key(name) <==> old(cache)@.ids.contains_key(name)
                    || other@.ids.contains_key(name)
                &&& final(cache)@.ids.contains_key(name) ==> final(cache)@.ids[name] == (
                if other@.ids.contains_key(name) {
                    other@.ids[name]
                } else {
                    old(cache)@.ids[name]
                })
            },
        forall|id: i32|
            #![trigger final(cache)@.names.contains_key(id)]
            {
                &&& final(cache)@.names.contains_key(id) <==> old(cache)@.names.contains_key(id)
                    || other@.names.contains_key(id)
                &&& final(cache)@.names.contains_key(id) ==> final(cache)@.names[id] == (
                if other@.names.contains_key(id) {
                    other@.names[id]
                } else {
                    old(cache)@.names[id]
                })
            },
{
}

/// A table has under a key what was put there last, and under the others what it had.
pub proof fn law_table_call<K: Key, V: Value>(
    table: &mut Table<K, V>,
    key: K,
    value: V,
)
    requires
        call_ensures(Table::<K, V>::insert, (table, key, value), ()),
    ensures
        final(table)@.contains_key(key.deep_view()),
        final(table)@[key.deep_view()] == value.deep_view(),
        forall|other: K::V|
            #![trigger final(table)@.contains_key(other)]
            other != key.deep_view() ==> {
                &&& final(table)@.contains_key(other) <==> old(table)@.contains_key(other)
                &&& old(table)@.contains_key(other) ==> final(table)@[other] == old(table)@[other]
            },
{
}

/// A table gives what it has under a key, and nothing where it has none.
pub proof fn law_table_gives<K: Key, V: Value>(table: Table<K, V>, key: K, value: Option<&V>)
    requires
        call_ensures(Table::<K, V>::get, (&table, &key), value),
    ensures
        value is Some <==> table@.contains_key(key.deep_view()),
        value matches Some(value) ==> value.deep_view() == table@[key.deep_view()],
{
}

/// What is taken out of a table is no longer there, and the rest is.
pub proof fn law_table_gives_up<K: Key, V: Value>(
    table: &mut Table<K, V>,
    key: K,
    value: Option<V>,
)
    requires
        call_ensures(Table::<K, V>::remove, (table, &key), value),
    ensures
        !final(table)@.contains_key(key.deep_view()),
        value is Some <==> old(table)@.contains_key(key.deep_view()),
        value matches Some(value) ==> value.deep_view() == old(table)@[key.deep_view()],
        forall|other: K::V|
            #![trigger final(table)@.contains_key(other)]
            other != key.deep_view() ==> {
                &&& final(table)@.contains_key(other) <==> old(table)@.contains_key(other)
                &&& old(table)@.contains_key(other) ==> final(table)@[other] == old(table)@[other]
            },
{
}

/// A time is as many milliseconds as it was made of. No time is before the epoch.
pub proof fn law_time_call(millis: i64, result: Result<SyncTimestamp, DbError>)
    requires
        call_ensures(SyncTimestamp::from_i64, (millis,), result),
    ensures
        result is Ok <==> millis >= 0,
        result matches Ok(stamp) ==> stamp@ == millis,
        result matches Err(error) ==> error@ is Integrity,
{
}

/// A time says how many milliseconds it has.
pub proof fn law_time_is_told(stamp: SyncTimestamp, millis: i64, zero: SyncTimestamp)
    requires
        call_ensures(SyncTimestamp::as_i64, (stamp,), millis),
        call_ensures(SyncTimestamp::zero, (), zero),
    ensures
        millis == stamp@,
        millis >= 0,
        zero@ == 0,
{
}

/// A time is read from its text, unless the text is none or its instant is before the epoch.
pub proof fn law_time_is_read(text: &str, result: Result<SyncTimestamp, DbError>)
    requires
        call_ensures(SyncTimestamp::from_rfc3339, (text,), result),
    ensures
        match rfc3339_instant(text@) {
            Ok(millis) => if millis >= 0 {
                result matches Ok(stamp) && stamp@ == millis
            } else {
                result matches Err(error) && error@ is Integrity
            },
            Err(_) => result matches Err(error) && error@ is Integrity,
        },
{
}

/// A time is written as its text, unless the calendar does not reach it.
pub proof fn law_time_is_written(stamp: SyncTimestamp, result: Result<String, DbError>)
    requires
        call_ensures(SyncTimestamp::as_rfc3339, (stamp,), result),
    ensures
        result is Ok <==> has_text(stamp@),
        result matches Ok(text) ==> text@ == rfc3339_text(stamp@ as i64),
        result matches Err(error) ==> error@ is Internal,
{
}

/// An error is of the kind that it was made of, with its text.
pub proof fn law_error_call(kind: DbErrorKind, error: DbError, told: &DbErrorKind)
    requires
        call_ensures(DbError::new, (kind,), error),
        call_ensures(DbError::kind, (&error,), told),
    ensures
        told@ == kind@,
        match kind {
            DbErrorKind::CollectionNotFound => error@ == ErrorView::CollectionNotFound,
            DbErrorKind::BsoNotFound => error@ == ErrorView::BsoNotFound,
            DbErrorKind::Integrity(text) => error@ == ErrorView::Integrity(text@),
            DbErrorKind::Internal(text) => error@ == ErrorView::Internal(text@),
            DbErrorKind::Spanner(text) => error@ == ErrorView::Spanner(text@),
        },
{
}

/// What an error says tells what went wrong, and ends with the text of the error if it has one.
pub proof fn law_error_text_call(error: DbError, text: String)
    requires
        call_ensures(DbError::to_text, (&error,), text),
    ensures
        match error@ {
            ErrorView::CollectionNotFound => text@ == "Specified collection does not exist"@,
            ErrorView::BsoNotFound => text@ == "Specified bso does not exist"@,
            ErrorView::Integrity(why) => text@ == "Database integrity error: "@ + why,
            ErrorView::Internal(why) => text@ == "Unexpected error: "@ + why,
            ErrorView::Spanner(why) => text@ == "A database error occurred: "@ + why,
        },
{
}

/// The one row of a result is its first, and there is one exactly where there is no other.
pub proof fn law_one_row_call(
    result: SyncResultSet,
    row: Result<Option<&Vec<String>>, Stop>,
    the_row: Result<&Vec<String>, Stop>,
)
    requires
        call_ensures(SyncResultSet::one_or_none, (&result,), row),
        call_ensures(SyncResultSet::one, (&result,), the_row),
    ensures
        result.rows.len() == 0 ==> row == Ok::<Option<&Vec<String>>, Stop>(None) && the_row is Err,
        result.rows.len() == 1 ==> {
            &&& row matches Ok(Some(found)) && found.deep_view() == result.rows[0].deep_view()
            &&& the_row matches Ok(found) && found.deep_view() == result.rows[0].deep_view()
        },
        result.rows.len() > 1 ==> row is Err && the_row is Err,
{
    law_result_is_seen(result);
    if result.rows.len() == 1 {
        assert(result.deep_view().rows[0] == result.rows[0].deep_view());
    }
}

/// How many rows a statement changed is the number that its result says.
pub proof fn law_affected_rows_call(result: SyncResultSet, count: Result<i64, DbError>)
    requires
        call_ensures(SyncResultSet::affected_rows, (&result,), count),
    ensures
        match result.deep_view().stats {
            Some(Some(text)) => match read_i64(text) {
                Ok(number) => count matches Ok(value) && value == number,
                Err(_) => count matches Err(error) && error@ is Internal,
            },
            _ => count matches Err(error) && error@ is Internal,
        },
{
}

/// The text of a natural number has digits only, without leading zeros; and so has that of an
/// integer, behind a minus sign where it is negative.
pub proof fn law_number_call(n: u64, i: i64, text: String, signed: String)
    requires
        call_ensures(natural_text, (n,), text),
        call_ensures(decimal_text, (i,), signed),
    ensures
        is_digits(text@),
        digits_value(text@) == n,
        text@[0] == '0' ==> text@.len() == 1,
        i >= 0 ==> is_digits(signed@) && digits_value(signed@) == i && (signed@[0] == '0'
            ==> signed@.len() == 1),
        i < 0 ==> signed@[0] == '-' && is_digits(signed@.skip(1)) && digits_value(signed@.skip(1))
            == -i && signed@[1] != '0',
{
    lemma_canonical(n as nat);
    if i < 0 {
        lemma_canonical((-i) as nat);
        assert(signed@.skip(1) =~= natural((-i) as nat));
    } else {
        lemma_canonical(i as nat);
    }
}

proof fn lemma_canonical(n: nat)
    ensures
        is_digits(natural(n)),
        digits_value(natural(n)) == n,
        natural(n)[0] == '0' ==> natural(n).len() == 1 && n == 0,
    decreases n,
{
    lemma_natural_round_trip(n);
    if n >= 10 {
        lemma_canonical(n / 10);
        lemma_natural_round_trip(n / 10);
        assert(natural(n)[0] == natural(n / 10)[0]);
    }
}

/// The parameters of a query hold the user, the collection, the time of the session, the times
/// and the ids that are given, each under its name.
pub proof fn law_bind_call(
    query: BsoQueryParams,
    request: &mut ExecuteSqlRequest,
    user: i32,
    id: i32,
    now: String,
    older: Option<String>,
    newer: Option<String>,
)
    requires
        call_ensures(BsoQueryParams::bind, (&query, request, user, id, now, older, newer), ()),
    ensures
        final(request).sql@ == old(request).sql@,
        final(request).params@["userid"@] == decimal(user as int),
        final(request).params@["collectionid"@] == decimal(id as int),
        final(request).params@["timestamp"@] == now@,
        older matches Some(older) ==> final(request).params@["older"@] == older@,
        newer matches Some(newer) ==> final(request).params@["newer"@] == newer@,
        forall|i: nat|
            #![trigger natural(i)]
            i < query.ids.len() ==> final(request).params@["arg"@ + natural(i)]
                == query.ids[i as int]@,
        final(request).param_types@["timestamp"@] == SpannerType::Timestamp,
        older is Some ==> final(request).param_types@["older"@] == SpannerType::Timestamp,
        newer is Some ==> final(request).param_types@["newer"@] == SpannerType::Timestamp,
{
    let before = old(request).deep_view();
    let first = before.with("userid"@, decimal(user as int)).with(
        "collectionid"@,
        decimal(id as int),
    ).with("timestamp"@, now@).typed("timestamp"@, SpannerType::Timestamp);
    let second = time_param(
        time_param(first, "older"@, older.deep_view()),
        "newer"@,
        newer.deep_view(),
    );
    let sent = final(request).deep_view();
    law_ids_are_bound(second, query@.ids);
    reveal_strlit("userid");
    reveal_strlit("collectionid");
    reveal_strlit("timestamp");
    reveal_strlit("older");
    reveal_strlit("newer");
    reveal_strlit("arg");
    assert("userid"@[0] == 'u' && "collectionid"@[0] == 'c' && "timestamp"@[0] == 't');
    assert("older"@[0] == 'o' && "newer"@[0] == 'n');
    assert forall|i: nat| (#[trigger] id_param(i))[0] == 'a' by {}
    assert(sent.params["userid"@] == second.params["userid"@]);
    assert(sent.params["collectionid"@] == second.params["collectionid"@]);
    assert(sent.params["timestamp"@] == second.params["timestamp"@]);
    assert(sent.params["older"@] == second.params["older"@]);
    assert(sent.params["newer"@] == second.params["newer"@]);
    assert forall|i: nat| #![trigger natural(i)] i < query.ids.len() implies sent.params["arg"@
        + natural(i)] == query.ids[i as int]@ by {
        assert(sent.params[id_param(i)] == query@.ids[i as int]);
        assert(query.ids.deep_view()[i as int] == query.ids[i as int].deep_view());
    }
}

/// An update has a parameter for each part that is given of the object, and for its time where
/// the payload or the sort index is; the others keep theirs.
pub proof fn law_bind_update_call(
    params: PutBso,
    request: &mut ExecuteSqlRequest,
    modified: String,
    expiry: Option<String>,
)
    requires
        call_ensures(PutBso::bind_update, (&params, request, modified, expiry), ()),
    ensures
        final(request).sql@ == old(request).sql@,
        final(request).params@["bsoid"@] == params.id@,
        params.payload matches Some(payload) ==> final(request).params@["payload"@] == payload@,
        params.sortindex matches Some(sortindex) ==> final(request).params@["sortindex"@]
            == decimal(sortindex as int) && final(request).param_types@["sortindex"@]
            == SpannerType::Int64,
        expiry matches Some(expiry) ==> final(request).params@["expiry"@] == expiry@ && final(request).param_types@["expiry"@] == SpannerType::Timestamp,
        params.payload is Some || params.sortindex is Some ==> final(request).params@["modified"@]
            == modified@ && final(request).param_types@["modified"@] == SpannerType::Timestamp,
        final(request).params@.contains_key("payload"@) <==> params.payload is Some || old(request).params@.contains_key("payload"@),
        final(request).params@.contains_key("sortindex"@) <==> params.sortindex is Some || old(request).params@.contains_key("sortindex"@),
        final(request).params@.contains_key("expiry"@) <==> expiry is Some || old(request).params@.contains_key("expiry"@),
        final(request).params@.contains_key("modified"@) <==> params.payload is Some
            || params.sortindex is Some || old(request).params@.contains_key("modified"@),
        final(request).params@["userid"@] == old(request).params@["userid"@],
        final(request).params@["collectionid"@] == old(request).params@["collectionid"@],
{
    lemma_names_differ();
    assert(final(request).deep_view().params == final(request).params@);
    assert(final(request).deep_view().param_types == final(request).param_types@);
}

/// An insertion has a parameter for the payload, for the times and for the sort index where one
/// is given; a payload that is not given is `DEFAULT`.
pub proof fn law_bind_insert_call(
    params: PutBso,
    request: &mut ExecuteSqlRequest,
    modified: String,
    expiry: String,
)
    requires
        call_ensures(PutBso::bind_insert, (&params, request, modified, expiry), ()),
    ensures
        final(request).sql@ == old(request).sql@,
        final(request).params@["bsoid"@] == params.id@,
        match params.payload {
            Some(payload) => final(request).params@["payload"@] == payload@,
            None => final(request).params@["payload"@] == "DEFAULT"@,
        },
        params.sortindex matches Some(sortindex) ==> final(request).params@["sortindex"@]
            == decimal(sortindex as int) && final(request).param_types@["sortindex"@]
            == SpannerType::Int64,
        final(request).params@.contains_key("sortindex"@) <==> params.sortindex is Some || old(request).params@.contains_key("sortindex"@),
        final(request).params@["expiry"@] == expiry@,
        final(request).param_types@["expiry"@] == SpannerType::Timestamp,
        final(request).params@["modified"@] == modified@,
        final(request).param_types@["modified"@] == SpannerType::Timestamp,
        final(request).params@["userid"@] == old(request).params@["userid"@],
        final(request).params@["collectionid"@] == old(request).params@["collectionid"@],
{
    lemma_names_differ();
    assert(final(request).deep_view().params == final(request).params@);
    assert(final(request).deep_view().param_types == final(request).param_types@);
}

/// To look names up looks up those of the ids that are given.
pub proof fn law_load_names_call(
    db: &mut SpannerDb,
    ids: Vec<i32>,
    result: Result<Table<i32, String>, Stop>,
)
    requires
        call_ensures(SpannerDb::load_collection_names, (db, &ids), result),
    ensures
        ({
            let step = old(db)@.load_collection_names(ids@.to_set());
            &&& final(db)@ == step.db
            &&& match result {
                Ok(names) => step.out == Ok::<Map<i32, Seq<char>>, StopView>(names@),
                Err(stop) => step.out matches Err(seen) && stops(stop, seen),
            }
        }),
{
}

/// A statement is sent as it is, and gives what the reply to it holds.
pub proof fn law_execute_call(
    db: &mut SpannerDb,
    request: ExecuteSqlRequest,
    result: Result<SyncResultSet, Stop>,
)
    requires
        call_ensures(SpannerDb::execute, (db, request), result),
    ensures
        final(db)@.conn.sent == old(db)@.conn.sent.push(
            RequestView::Execute(request.deep_view()),
        ),
        ({
            let n = old(db)@.conn.sent.len();
            if n < old(db)@.conn.answers.len() {
                match old(db)@.conn.answers[n as int] {
                    AnswerView::Reply(reply) => result matches Ok(found) && found.deep_view()
                        == reply.result,
                    AnswerView::Error(text) => result matches Err(stop) && stops(
                        stop,
                        StopView::Failed(ErrorView::Spanner(text)),
                    ),
                }
            } else {
                result matches Err(stop) && stops(stop, StopView::Waiting)
            }
        }),
{
}

/// A statement is made of that text, in the open transaction and with the next number, and has
/// no parameters.
pub proof fn law_sql_call(
    db: &mut SpannerDb,
    sql: &str,
    result: Result<ExecuteSqlRequest, Stop>,
)
    requires
        call_ensures(SpannerDb::sql, (db, sql), result),
        old(db)@.transaction is Some,
        old(db)@.statements < u64::MAX,
    ensures
        result matches Ok(request) && {
            &&& request.sql@ == sql@
            &&& request.seqno@ == natural(old(db)@.statements as nat)
            &&& request.transaction.deep_view() == old(db)@.transaction
            &&& forall|name: Seq<char>| !(#[trigger] request.params@.contains_key(name))
            &&& forall|name: Seq<char>| !(#[trigger] request.param_types@.contains_key(name))
        },
        final(db)@ == (DbView { statements: old(db)@.statements + 1, ..old(db)@ }),
{
    if let Ok(request) = result {
        assert(request.deep_view().params == request.params@);
    }
}

/// A copy of the storage is like the storage.
pub proof fn law_copy_call(db: SpannerDb, copy: SpannerDb)
    requires
        call_ensures(<SpannerDb as Clone>::clone, (&db,), copy),
    ensures
        copy@ == db@,
{
}

/// The entries of a table are what it has under its keys, each key once.
pub proof fn law_entries_call<K: Key, V: Value>(
    table: Table<K, V>,
    entries: &Vec<(K, V)>,
    keys: Vec<K>,
    n: usize,
)
    requires
        call_ensures(Table::<K, V>::entries, (&table,), entries),
        call_ensures(Table::<K, V>::keys, (&table,), keys),
        call_ensures(Table::<K, V>::len, (&table,), n),
    ensures
        forall|i: int|
            #![trigger entries@[i]]
            0 <= i < entries.len() ==> table@.contains_key(entries@[i].0.deep_view())
                && table@[entries@[i].0.deep_view()] == entries@[i].1.deep_view(),
        forall|key: K::V| #[trigger]
            table@.contains_key(key) ==> exists|i: int|
                0 <= i < entries.len() && (#[trigger] entries@[i]).0.deep_view() == key,
        forall|i: int, j: int|
            #![trigger entries@[i], entries@[j]]
            0 <= i < j < entries.len() ==> entries@[i].0.deep_view() != entries@[j].0.deep_view(),
        forall|key: K::V| #[trigger]
            table@.contains_key(key) <==> keys.deep_view().contains(key),
        n == table@.dom().len(),
{
    lemma_map_of(entries@);
    assert forall|key: K::V| #[trigger]
        table@.contains_key(key) <==> keys.deep_view().contains(key) by {
        assert(keys.deep_view().to_set().contains(key) <==> keys.deep_view().contains(key));
        assert(table@.dom().contains(key) <==> table@.contains_key(key));
    }
}

/// A new table has nothing.
pub proof fn law_new_table<K: Key, V: Value>(table: Table<K, V>)
    requires
        call_ensures(Table::<K, V>::new, (), table),
    ensures
        forall|key: K::V| !(#[trigger] table@.contains_key(key)),
{
}

/// A cell is the text at its place in the row; what it stands for is read from that text.
pub proof fn law_cell_call(
    row: Vec<String>,
    column: usize,
    text: Result<&String, Stop>,
    number: Result<i32, Stop>,
    long: Result<i64, Stop>,
    stamp: Result<SyncTimestamp, Stop>,
)
    requires
        call_ensures(text_at, (&row, column), text),
        call_ensures(i32_at, (&row, column), number),
        call_ensures(i64_at, (&row, column), long),
        call_ensures(stamp_at, (&row, column), stamp),
    ensures
        column >= row.len() ==> {
            &&& text matches Err(stop) && stops(stop, StopView::Fault)
            &&& number matches Err(stop) && stops(stop, StopView::Fault)
            &&& long matches Err(stop) && stops(stop, StopView::Fault)
            &&& stamp matches Err(stop) && stops(stop, StopView::Fault)
        },
        column < row.len() ==> {
            &&& text matches Ok(text) && text@ == row[column as int]@
            &&& match read_i32(row[column as int]@) {
                Ok(value) => number matches Ok(read) && read == value,
                Err(error) => number matches Err(stop) && stops(
                    stop,
                    StopView::Failed(ErrorView::Integrity(error)),
                ),
            }
            &&& match read_i64(row[column as int]@) {
                Ok(value) => long matches Ok(read) && read == value,
                Err(error) => long matches Err(stop) && stops(
                    stop,
                    StopView::Failed(ErrorView::Integrity(error)),
                ),
            }
            &&& match time_of(row[column as int]@) {
                Ok(value) => stamp matches Ok(read) && read@ == value,
                Err(why) => stamp matches Err(stop) && stops(stop, why),
            }
        },
{
    let seen = row.deep_view();
    assert(seen.len() == row.len());
    if column < row.len() {
        assert(seen[column as int] == row[column as int]@);
    }
}

/// Two texts are joined in their order.
pub proof fn law_joined_call(first: &str, second: &str, text: String)
    requires
        call_ensures(joined, (first, second), text),
    ensures
        text@.len() == first@.len() + second@.len(),
        text@.take(first@.len() as int) == first@,
        text@.skip(first@.len() as int) == second@,
{
    assert(text@.take(first@.len() as int) =~= first@);
    assert(text@.skip(first@.len() as int) =~= second@);
}

/// A lock is held for that user and that collection, and the others as before; a time that comes
/// with it is kept.
pub proof fn law_hold_lock_call(
    db: &mut SpannerDb,
    user: u32,
    id: i32,
    lock: CollectionLock,
    modified: Option<SyncTimestamp>,
)
    requires
        call_ensures(SpannerDb::hold_lock, (db, user, id, lock, modified), ()),
    ensures
        final(db)@ == (DbView {
            locks: old(db)@.locks.insert((user, id), lock),
            modified: match modified {
                Some(modified) => old(db)@.modified.insert((user, id), modified@),
                None => old(db)@.modified,
            },
            ..old(db)@
        }),
{
}

} // verus!
