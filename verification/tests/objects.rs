//! Writing and reading objects.

use syncstorage::cache::CollectionCache;
use syncstorage::conn::{
    Answer, Conn, ExecuteSqlRequest, Reply, Request, SpannerType, SyncResultSet,
};
use syncstorage::db::SpannerDb;
use syncstorage::error::Stop;
use syncstorage::params::{
    BsoQueryParams, GetBso, GetBsoTimestamp, GetBsos, PostBsos, PostCollectionBso, PutBso, Sorting,
    UserIdentifier,
};
use syncstorage::read::bso_at;
use syncstorage::results;
use syncstorage::table::Table;
use syncstorage::timestamp::{SyncTimestamp, LAST_INSTANT};
use syncstorage::write::DEFAULT_BSO_TTL;

fn reply(rows: &[&[&str]]) -> Answer {
    Answer::Reply(Reply {
        transaction_id: None,
        result: SyncResultSet {
            rows: rows
                .iter()
                .map(|row| row.iter().map(|cell| cell.to_string()).collect())
                .collect(),
            stats: None,
        },
    })
}

fn begun(id: &str) -> Answer {
    Answer::Reply(Reply {
        transaction_id: Some(id.to_string()),
        result: SyncResultSet { rows: Vec::new(), stats: None },
    })
}

/// A storage at that time, with those answers on record.
fn storage(now: i64, answers: Vec<Answer>) -> SpannerDb {
    let mut conn = Conn::new(false);
    for answer in answers {
        conn.answer(answer);
    }
    SpannerDb::new(conn, CollectionCache::new(), SyncTimestamp::from_i64(now).unwrap())
}

fn user(id: u64) -> UserIdentifier {
    UserIdentifier { legacy_id: id }
}

fn statement(db: &SpannerDb, index: usize) -> &ExecuteSqlRequest {
    match &db.inner.conn.sent()[index] {
        Request::Execute(request) => request,
        other => panic!("not a statement: {:?}", other),
    }
}

fn param<'a>(request: &'a ExecuteSqlRequest, name: &str) -> Option<&'a str> {
    request.params.get(&name.to_string()).map(|value| value.as_str())
}

fn failure<T>(result: Result<T, Stop>) -> String {
    match result {
        Err(Stop::Failed(error)) => error.to_text(),
        _ => panic!("expected a failure"),
    }
}

const NOW: i64 = 1_546_300_800_000;

/// A storage with an open transaction that knows one collection.
fn opened(now: i64, answers: Vec<Answer>) -> SpannerDb {
    let mut all = vec![begun("t")];
    all.extend(answers);
    let mut db = storage(now, all);
    db.begin(true).unwrap();
    db.coll_cache.put(7, "bookmarks".to_string());
    db
}

fn put(sortindex: Option<i32>, payload: Option<&str>, ttl: Option<u32>) -> PutBso {
    PutBso {
        user_id: user(3),
        collection: "bookmarks".to_string(),
        id: "b1".to_string(),
        sortindex,
        payload: payload.map(|payload| payload.to_string()),
        ttl,
    }
}

/// The answers for a collection that is there and an object that is there or not.
fn existing(there: bool) -> Vec<Answer> {
    vec![
        reply(&[&["1"]]),
        reply(&[]),
        if there { reply(&[&["1"]]) } else { reply(&[]) },
        reply(&[]),
    ]
}

fn type_of<'a>(request: &'a ExecuteSqlRequest, name: &str) -> Option<&'a SpannerType> {
    request.param_types.get(&name.to_string())
}

#[test]
fn a_new_object_is_inserted() {
    let mut db = opened(NOW, existing(false));
    assert_eq!(db.put_bso_sync(put(Some(-5), Some("text"), Some(60))).unwrap().as_i64(), NOW);
    assert_eq!(db.inner.conn.sent().len(), 5);
    assert_eq!(
        statement(&db, 3).sql,
        "SELECT 1 as count FROM bso WHERE userid = @userid AND collection = @collectionid AND id = @bsoid"
    );
    let insert = statement(&db, 4);
    assert_eq!(
        insert.sql,
        "INSERT INTO bso (userid, collection, id, sortindex, payload, modified, ttl) VALUES (@userid, @collectionid, @bsoid, @sortindex, @payload, @modified, @expiry)"
    );
    assert_eq!(param(insert, "userid"), Some("3"));
    assert_eq!(param(insert, "collectionid"), Some("7"));
    assert_eq!(param(insert, "bsoid"), Some("b1"));
    assert_eq!(param(insert, "sortindex"), Some("-5"));
    assert_eq!(param(insert, "payload"), Some("text"));
    assert_eq!(param(insert, "modified"), Some("2019-01-01T00:00:00.000000000Z"));
    assert_eq!(param(insert, "expiry"), Some("2019-01-01T00:01:00.000000000Z"));
    assert_eq!(insert.params.len(), 7);
    assert_eq!(type_of(insert, "sortindex"), Some(&SpannerType::Int64));
    assert_eq!(type_of(insert, "modified"), Some(&SpannerType::Timestamp));
    assert_eq!(type_of(insert, "expiry"), Some(&SpannerType::Timestamp));
    assert_eq!(insert.param_types.len(), 3);
}

#[test]
fn a_new_object_takes_defaults() {
    let mut db = opened(NOW, existing(false));
    db.put_bso_sync(put(None, None, None)).unwrap();
    let insert = statement(&db, 4);
    assert_eq!(
        insert.sql,
        "INSERT INTO bso (userid, collection, id, payload, modified, ttl) VALUES (@userid, @collectionid, @bsoid,  @payload, @modified, @expiry)"
    );
    assert_eq!(param(insert, "payload"), Some("DEFAULT"));
    assert_eq!(param(insert, "sortindex"), None);
    assert_eq!(DEFAULT_BSO_TTL, 2_100_000_000);
    assert_eq!(param(insert, "expiry"), Some("2085-07-18T13:20:00.000000000Z"));
    assert_eq!(insert.params.len(), 6);
    assert_eq!(insert.param_types.len(), 2);
}

#[test]
fn an_object_is_updated_in_what_is_given() {
    let mut db = opened(NOW, existing(true));
    db.put_bso_sync(put(Some(9), Some("text"), Some(1))).unwrap();
    let update = statement(&db, 4);
    assert_eq!(
        update.sql,
        "UPDATE bso SET sortindex = @sortindex, ttl = @expiry, modified = @modified, payload = @payload WHERE userid = @userid AND collection = @collectionid AND id = @bsoid"
    );
    assert_eq!(param(update, "sortindex"), Some("9"));
    assert_eq!(param(update, "expiry"), Some("2019-01-01T00:00:01.000000000Z"));
    assert_eq!(param(update, "modified"), Some("2019-01-01T00:00:00.000000000Z"));
    assert_eq!(param(update, "payload"), Some("text"));
    assert_eq!(param(update, "bsoid"), Some("b1"));
    assert_eq!(update.params.len(), 7);
    assert_eq!(update.param_types.len(), 3);
}

#[test]
fn a_new_time_to_live_alone_is_no_modification() {
    let mut db = opened(NOW, existing(true));
    db.put_bso_sync(put(None, None, Some(0))).unwrap();
    let update = statement(&db, 4);
    assert_eq!(
        update.sql,
        "UPDATE bso SET ttl = @expiry WHERE userid = @userid AND collection = @collectionid AND id = @bsoid"
    );
    assert_eq!(param(update, "expiry"), Some("2019-01-01T00:00:00.000000000Z"));
    assert_eq!(param(update, "modified"), None);
}

#[test]
fn a_payload_alone_modifies() {
    let mut db = opened(NOW, existing(true));
    db.put_bso_sync(put(None, Some(""), None)).unwrap();
    assert_eq!(
        statement(&db, 4).sql,
        "UPDATE bso SET modified = @modified, payload = @payload WHERE userid = @userid AND collection = @collectionid AND id = @bsoid"
    );
    let mut db = opened(NOW, existing(true));
    db.put_bso_sync(put(Some(1), None, None)).unwrap();
    assert_eq!(
        statement(&db, 4).sql,
        "UPDATE bso SET sortindex = @sortindex, modified = @modified WHERE userid = @userid AND collection = @collectionid AND id = @bsoid"
    );
}

#[test]
fn nothing_to_set_sends_nothing() {
    let mut db = opened(NOW, existing(true));
    assert_eq!(db.put_bso_sync(put(None, None, None)).unwrap().as_i64(), NOW);
    assert_eq!(db.inner.conn.sent().len(), 4);
}

#[test]
fn an_expiry_that_cannot_be_written_fails() {
    let mut db = opened(LAST_INSTANT, existing(true));
    assert_eq!(
        failure(db.put_bso_sync(put(None, None, Some(1)))),
        "Unexpected error: Invalid timestamp 8210266876800999"
    );
    assert_eq!(db.inner.conn.sent().len(), 4);
    let mut db = opened(LAST_INSTANT, existing(false));
    assert_eq!(
        failure(db.put_bso_sync(put(None, None, None))),
        "Unexpected error: Invalid timestamp 8212366876799999"
    );
}

#[test]
fn an_object_of_a_large_user_id_is_written_under_all_of_it() {
    let mut db = opened(NOW, existing(false));
    let mut bso = put(None, None, None);
    bso.user_id = user(4_294_967_299);
    db.put_bso_sync(bso).unwrap();
    assert_eq!(param(statement(&db, 1), "userid"), Some("3"));
    assert_eq!(param(statement(&db, 4), "userid"), Some("4294967299"));
}

#[test]
fn two_objects_of_one_id_are_an_error() {
    let mut db = opened(NOW, vec![reply(&[&["1"]]), reply(&[]), reply(&[&["1"], &["1"]])]);
    assert_eq!(
        failure(db.put_bso_sync(put(None, None, None))),
        "Unexpected error: Expected one result; got more."
    );
}

fn posted(id: &str) -> PostCollectionBso {
    PostCollectionBso {
        id: id.to_string(),
        sortindex: None,
        payload: Some("p".to_string()),
        ttl: None,
    }
}

#[test]
fn every_posted_object_is_accounted_for() {
    let mut answers = existing(false);
    answers.push(reply(&[&["1"]]));
    answers.push(reply(&[]));
    answers.push(Answer::Error("too big".to_string()));
    answers.extend(existing(true));
    answers.push(reply(&[&["1"]]));
    answers.push(reply(&[]));
    let mut failed = Table::new();
    failed.insert("early".to_string(), "bad".to_string());
    let mut db = opened(NOW, answers);
    let result = db
        .post_bsos_sync(PostBsos {
            user_id: user(3),
            collection: "bookmarks".to_string(),
            bsos: vec![posted("a"), posted("b"), posted("c")],
            failed,
        })
        .unwrap();
    assert_eq!(result.modified.as_i64(), NOW);
    assert_eq!(result.success, vec!["a".to_string(), "c".to_string()]);
    assert_eq!(result.failed.len(), 2);
    assert_eq!(result.failed.get(&"early".to_string()).unwrap(), "bad");
    assert_eq!(
        result.failed.get(&"b".to_string()).unwrap(),
        "A database error occurred: too big"
    );
    assert_eq!(db.inner.conn.sent().len(), 14);
}

#[test]
fn posting_nothing_touches_the_collection() {
    let mut db = opened(NOW, vec![reply(&[]), reply(&[])]);
    let result = db
        .post_bsos_sync(PostBsos {
            user_id: user(3),
            collection: "bookmarks".to_string(),
            bsos: Vec::new(),
            failed: Table::new(),
        })
        .unwrap();
    assert_eq!(result.success.len(), 0);
    assert_eq!(result.failed.len(), 0);
    assert_eq!(db.inner.conn.sent().len(), 3);
}

#[test]
fn posting_waits_like_any_operation() {
    let mut db = opened(NOW, vec![reply(&[&["1"]])]);
    assert!(matches!(
        db.post_bsos_sync(PostBsos {
            user_id: user(3),
            collection: "bookmarks".to_string(),
            bsos: vec![posted("a")],
            failed: Table::new(),
        }),
        Err(Stop::Waiting)
    ));
    assert!(db.inner.conn.pending().is_some());
}

fn get(id: &str) -> GetBso {
    GetBso { user_id: user(3), collection: "bookmarks".to_string(), id: id.to_string() }
}

#[test]
fn an_object_is_read() {
    let mut db = opened(
        NOW,
        vec![reply(&[&[
            "b1",
            "2018-01-01T00:00:00Z",
            "text",
            "-5",
            "2019-01-01T00:01:00Z",
        ]])],
    );
    let bso = db.get_bso_sync(get("b1")).unwrap().unwrap();
    assert_eq!(bso.id, "b1");
    assert_eq!(bso.modified.as_i64(), 1_514_764_800_000);
    assert_eq!(bso.payload, "text");
    assert_eq!(bso.sortindex, Some(-5));
    assert_eq!(bso.expiry, NOW + 60_000);
    let select = statement(&db, 1);
    assert_eq!(
        select.sql,
        "SELECT id, modified, payload, coalesce(sortindex, 0), ttl FROM bso WHERE userid=@userid AND collection=@collectionid AND id=@bsoid AND ttl > @timestamp"
    );
    assert_eq!(param(select, "timestamp"), Some("2019-01-01T00:00:00.000000000Z"));
    assert_eq!(type_of(select, "timestamp"), Some(&SpannerType::Timestamp));
    assert_eq!(param(select, "bsoid"), Some("b1"));
}

#[test]
fn what_was_inserted_is_read_back() {
    let mut db = opened(NOW, existing(false));
    db.put_bso_sync(put(None, Some("text"), Some(3600))).unwrap();
    let insert = statement(&db, 4);
    let row = [
        param(insert, "bsoid").unwrap(),
        param(insert, "modified").unwrap(),
        param(insert, "payload").unwrap(),
        "0",
        param(insert, "expiry").unwrap(),
    ];
    let mut reader = opened(NOW, vec![reply(&[&row])]);
    let bso = reader.get_bso_sync(get("b1")).unwrap().unwrap();
    assert_eq!(bso.id, "b1");
    assert_eq!(bso.modified.as_i64(), NOW);
    assert_eq!(bso.payload, "text");
    assert_eq!(bso.sortindex, Some(0));
    assert_eq!(bso.expiry, NOW + 3_600_000);
}

#[test]
fn what_was_updated_is_read_back() {
    let mut db = opened(NOW, existing(true));
    db.put_bso_sync(put(Some(8), None, None)).unwrap();
    let update = statement(&db, 4);
    let row = [
        "b1",
        param(update, "modified").unwrap(),
        "before",
        param(update, "sortindex").unwrap(),
        "2030-01-01T00:00:00Z",
    ];
    let mut reader = opened(NOW, vec![reply(&[&row])]);
    let bso = reader.get_bso_sync(get("b1")).unwrap().unwrap();
    assert_eq!(bso.modified.as_i64(), NOW);
    assert_eq!(bso.payload, "before");
    assert_eq!(bso.sortindex, Some(8));
}

#[test]
fn an_object_that_is_not_there_is_none() {
    let mut db = opened(NOW, vec![reply(&[])]);
    assert!(db.get_bso_sync(get("b1")).unwrap().is_none());
}

#[test]
fn an_object_with_bad_times_is_an_error() {
    let bad = "Database integrity error: Invalid TIMESTAMP premature end of input";
    let mut db = opened(NOW, vec![reply(&[&["b", "x", "p", "0", "2019-01-01T00:00:00Z"]])]);
    assert_eq!(failure(db.get_bso_sync(get("b"))), bad);
    let mut db = opened(NOW, vec![reply(&[&["b", "2019-01-01T00:00:00Z", "p", "0", "x"]])]);
    assert_eq!(failure(db.get_bso_sync(get("b"))), bad);
}

#[test]
fn an_object_may_expire_before_the_epoch() {
    let mut db = opened(
        NOW,
        vec![reply(&[&["b", "2019-01-01T00:00:00Z", "p", "0", "1969-12-31T23:59:59Z"]])],
    );
    assert_eq!(db.get_bso_sync(get("b")).unwrap().unwrap().expiry, -1000);
}

#[test]
fn an_object_with_a_bad_sort_index_is_a_fault() {
    let time = "2019-01-01T00:00:00Z";
    let mut db = opened(NOW, vec![reply(&[&["b", time, "p", "high", time]])]);
    assert!(matches!(db.get_bso_sync(get("b")), Err(Stop::Fault)));
}

#[test]
fn the_time_of_an_object_is_read() {
    let params = || GetBsoTimestamp {
        user_id: user(3),
        collection: "bookmarks".to_string(),
        id: "b1".to_string(),
    };
    let mut db = opened(NOW, vec![reply(&[&["2018-01-01T00:00:00Z"]])]);
    assert_eq!(db.get_bso_timestamp_sync(params()).unwrap().as_i64(), 1_514_764_800_000);
    assert_eq!(
        statement(&db, 1).sql,
        "SELECT modified FROM bso WHERE collection=@collectionid AND userid=@userid AND id=@bsoid AND ttl>@ttl"
    );
    assert_eq!(param(statement(&db, 1), "ttl"), Some("2019-01-01T00:00:00.000000000Z"));
    let mut db = opened(NOW, vec![reply(&[])]);
    assert_eq!(db.get_bso_timestamp_sync(params()).unwrap().as_i64(), 0);
}

fn query() -> BsoQueryParams {
    BsoQueryParams {
        newer: None,
        older: None,
        sort: Sorting::Unsorted,
        limit: None,
        offset: None,
        ids: Vec::new(),
    }
}

fn list(params: BsoQueryParams) -> GetBsos {
    GetBsos { user_id: user(3), collection: "bookmarks".to_string(), params }
}

const LIST_SQL: &str = "SELECT id, modified, payload, COALESCE(sortindex, 0), ttl FROM bso WHERE userid = @userid AND collection = @collectionid AND ttl > @timestamp";

#[test]
fn a_query_says_all_that_is_asked_for() {
    assert_eq!(query().sql(), format!("{} LIMIT -1", LIST_SQL));
    let all = BsoQueryParams {
        newer: Some(SyncTimestamp::from_i64(1000).unwrap()),
        older: Some(SyncTimestamp::from_i64(2000).unwrap()),
        sort: Sorting::Newest,
        limit: Some(10),
        offset: Some(20),
        ids: vec!["x".to_string(), "y".to_string(), "z".to_string()],
    };
    assert_eq!(
        all.sql(),
        format!(
            "{} AND modified < @older AND modified > @newer AND id IN (@arg0, @arg1, @arg2) ORDER BY modified DESC LIMIT 11 OFFSET 20",
            LIST_SQL
        )
    );
    let sorted = |sort: Sorting| BsoQueryParams { sort, ..query() }.sql();
    assert_eq!(
        sorted(Sorting::Oldest),
        format!("{} ORDER BY modified ASC LIMIT -1", LIST_SQL)
    );
    assert_eq!(
        sorted(Sorting::Index),
        format!("{} ORDER BY sortindex DESC LIMIT -1", LIST_SQL)
    );
    let none = BsoQueryParams { limit: Some(0), offset: Some(0), ..query() };
    assert_eq!(none.sql(), format!("{} LIMIT 1", LIST_SQL));
}

#[test]
fn a_query_binds_its_parameters() {
    let params = BsoQueryParams {
        newer: Some(SyncTimestamp::from_i64(1000).unwrap()),
        older: Some(SyncTimestamp::from_i64(2000).unwrap()),
        ids: vec!["x".to_string(), "y".to_string()],
        ..query()
    };
    let mut db = opened(NOW, vec![reply(&[])]);
    let page = db.get_bsos_sync(list(params)).unwrap();
    assert_eq!(page.items.len(), 0);
    assert_eq!(page.offset, None);
    let select = statement(&db, 1);
    assert_eq!(param(select, "userid"), Some("3"));
    assert_eq!(param(select, "collectionid"), Some("7"));
    assert_eq!(param(select, "timestamp"), Some("2019-01-01T00:00:00.000000000Z"));
    assert_eq!(param(select, "newer"), Some("1970-01-01T00:00:01.000000000Z"));
    assert_eq!(param(select, "older"), Some("1970-01-01T00:00:02.000000000Z"));
    assert_eq!(param(select, "arg0"), Some("x"));
    assert_eq!(param(select, "arg1"), Some("y"));
    assert_eq!(select.params.len(), 7);
    assert_eq!(type_of(select, "newer"), Some(&SpannerType::Timestamp));
    assert_eq!(type_of(select, "older"), Some(&SpannerType::Timestamp));
    assert_eq!(type_of(select, "timestamp"), Some(&SpannerType::Timestamp));
}

fn rows(from: usize, count: usize) -> Answer {
    let ids: Vec<String> = (from..from + count).map(|n| format!("b{}", n)).collect();
    let time = "2019-01-01T00:00:00Z";
    let cells: Vec<Vec<&str>> =
        ids.iter().map(|id| vec![id.as_str(), time, "p", "1", time]).collect();
    let slices: Vec<&[&str]> = cells.iter().map(|row| row.as_slice()).collect();
    reply(&slices)
}

#[test]
fn pages_hold_everything() {
    // Five objects, two on a page: the database returns one more where there is one.
    let mut seen = Vec::new();
    let mut start: u64 = 0;
    let mut pages = 0;
    loop {
        let left = 5 - start as usize;
        let mut db = opened(NOW, vec![rows(start as usize, if left > 3 { 3 } else { left })]);
        let params = BsoQueryParams { limit: Some(2), offset: Some(start), ..query() };
        let page = db.get_bsos_sync(list(params)).unwrap();
        assert!(page.items.len() <= 2);
        for bso in page.items {
            seen.push(bso.id);
        }
        pages += 1;
        match page.offset {
            Some(next) => {
                assert_eq!(next, start as i64 + 2);
                start = next as u64;
            }
            None => break,
        }
    }
    assert_eq!(pages, 3);
    assert_eq!(seen, vec!["b0", "b1", "b2", "b3", "b4"]);
}

#[test]
fn a_page_of_no_objects_still_tells_whether_there_are_any() {
    let params = BsoQueryParams { limit: Some(0), ..query() };
    let mut db = opened(NOW, vec![rows(0, 1)]);
    let page = db.get_bsos_sync(list(params)).unwrap();
    assert_eq!(page.items.len(), 0);
    assert_eq!(page.offset, Some(0));
}

#[test]
fn a_page_that_would_start_beyond_all_numbers_is_a_fault() {
    let params = || BsoQueryParams { limit: Some(1), offset: Some(i64::MAX as u64), ..query() };
    let mut db = opened(NOW, vec![rows(0, 2)]);
    assert!(matches!(db.get_bsos_sync(list(params())), Err(Stop::Fault)));
    let mut db = opened(NOW, vec![rows(0, 1)]);
    assert_eq!(db.get_bsos_sync(list(params())).unwrap().offset, None);
}

#[test]
fn a_page_is_cut_by_the_query_alone() {
    let bso = |id: &str| results::GetBso {
        id: id.to_string(),
        modified: SyncTimestamp::zero(),
        payload: String::new(),
        sortindex: None,
        expiry: 0,
    };
    let params = BsoQueryParams { limit: Some(1), offset: Some(4), ..query() };
    let page = params.page(vec![bso("a"), bso("b")]).unwrap();
    assert_eq!(page.items.len(), 1);
    assert_eq!(page.items[0].id, "a");
    assert_eq!(page.offset, Some(5));
}

#[test]
fn ids_are_those_of_the_page() {
    let params = BsoQueryParams { limit: Some(2), ..query() };
    let mut db = opened(NOW, vec![rows(0, 3)]);
    let page = db.get_bso_ids_sync(list(params)).unwrap();
    assert_eq!(page.items, vec!["b0".to_string(), "b1".to_string()]);
    assert_eq!(page.offset, Some(2));
}

#[test]
fn a_listed_object_that_cannot_be_read_is_a_fault() {
    let time = "2019-01-01T00:00:00Z";
    let good: &[&str] = &["b", time, "p", "1", time];
    for bad in [
        &["b", "x", "p", "1", time][..],
        &["b", time, "p", "x", time][..],
        &["b", time, "p", "1", "x"][..],
        &["b", time, "p", "1"][..],
    ] {
        let mut db = opened(NOW, vec![reply(&[good, bad])]);
        assert!(matches!(db.get_bsos_sync(list(query())), Err(Stop::Fault)));
    }
}

#[test]
fn a_list_at_a_time_that_cannot_be_written_fails() {
    let mut db = opened(LAST_INSTANT + 1, Vec::new());
    assert_eq!(
        failure(db.get_bsos_sync(list(query()))),
        "Unexpected error: Invalid timestamp 8210266876800000"
    );
    assert_eq!(db.inner.conn.sent().len(), 1);
}

#[test]
fn reading_sends_select_statements_only() {
    let mut db = storage(NOW, vec![begun("t"), reply(&[&["7"]]), rows(0, 2)]);
    db.get_bsos_sync(list(query())).unwrap();
    for request in db.inner.conn.sent() {
        match request {
            Request::Begin(_) => {}
            Request::Execute(sql) => assert!(sql.sql.starts_with("SELECT")),
            other => panic!("not a request for reading: {:?}", other),
        }
    }
}

#[test]
fn an_operation_repeats_itself_with_more_replies() {
    let answers = || vec![reply(&[&["1"]]), reply(&[]), reply(&[]), reply(&[])];
    let mut whole = opened(NOW, answers());
    whole.put_bso_sync(put(None, Some("p"), None)).unwrap();
    for count in 0..4 {
        let fewer: Vec<Answer> = answers().into_iter().take(count).collect();
        let mut part = opened(NOW, fewer);
        assert!(matches!(part.put_bso_sync(put(None, Some("p"), None)), Err(Stop::Waiting)));
        assert_eq!(part.inner.conn.sent().len(), count + 2);
        for index in 1..part.inner.conn.sent().len() {
            assert_eq!(statement(&part, index).sql, statement(&whole, index).sql);
            assert_eq!(statement(&part, index).seqno, statement(&whole, index).seqno);
        }
    }
}

#[test]
fn parameters_of_a_write_are_bound() {
    let mut db = opened(NOW, Vec::new());
    let mut request = db.sql("any").unwrap();
    let bso = put(Some(2), None, Some(1));
    bso.bind_update(&mut request, "now".to_string(), Some("later".to_string()));
    assert_eq!(param(&request, "bsoid"), Some("b1"));
    assert_eq!(param(&request, "sortindex"), Some("2"));
    assert_eq!(param(&request, "modified"), Some("now"));
    assert_eq!(param(&request, "expiry"), Some("later"));
    assert_eq!(param(&request, "payload"), None);
    assert_eq!(request.sql, "any");

    let mut request = db.sql("any").unwrap();
    put(None, None, None).bind_insert(&mut request, "now".to_string(), "later".to_string());
    assert_eq!(param(&request, "payload"), Some("DEFAULT"));
    assert_eq!(param(&request, "modified"), Some("now"));
    assert_eq!(param(&request, "expiry"), Some("later"));
    assert_eq!(request.params.len(), 4);
    assert_eq!(put(None, None, Some(1)).assignments(), "ttl = @expiry");
    assert_eq!(put(None, None, None).assignments(), "");
}

#[test]
fn parameters_of_a_query_are_bound() {
    let mut db = opened(NOW, Vec::new());
    let mut request = db.sql("any").unwrap();
    let params = BsoQueryParams { ids: vec!["x".to_string()], ..query() };
    params.bind(&mut request, -3, 7, "now".to_string(), Some("before".to_string()), None);
    assert_eq!(param(&request, "userid"), Some("-3"));
    assert_eq!(param(&request, "collectionid"), Some("7"));
    assert_eq!(param(&request, "timestamp"), Some("now"));
    assert_eq!(param(&request, "older"), Some("before"));
    assert_eq!(param(&request, "newer"), None);
    assert_eq!(param(&request, "arg0"), Some("x"));
}

#[test]
fn an_object_is_made_of_its_cells_and_times() {
    let cells: Vec<String> =
        ["id", "-", "text", "12", "-"].iter().map(|cell| cell.to_string()).collect();
    let bso = bso_at(&cells, SyncTimestamp::from_i64(5).unwrap(), 9).unwrap();
    assert_eq!(bso.id, "id");
    assert_eq!(bso.modified.as_i64(), 5);
    assert_eq!(bso.payload, "text");
    assert_eq!(bso.sortindex, Some(12));
    assert_eq!(bso.expiry, 9);
    assert!(matches!(bso_at(&Vec::new(), SyncTimestamp::zero(), 0), Err(Stop::Fault)));
}

#[test]
fn a_query_with_times_that_cannot_be_written_is_a_fault_once_the_collection_is_found() {
    let late = || SyncTimestamp::from_i64(LAST_INSTANT + 1).unwrap();
    for params in [
        BsoQueryParams { older: Some(late()), ..query() },
        BsoQueryParams { newer: Some(late()), ..query() },
    ] {
        let mut db = opened(NOW, Vec::new());
        assert!(matches!(db.get_bsos_sync(list(params.clone())), Err(Stop::Fault)));
        assert_eq!(db.inner.conn.sent().len(), 1);
        let mut db = storage(NOW, vec![begun("t"), reply(&[])]);
        assert_eq!(
            failure(db.get_bso_ids_sync(list(params))),
            "Specified collection does not exist"
        );
    }
}

#[test]
fn writing_the_same_again_changes_nothing() {
    let mut db = opened(NOW, existing(false));
    let first = db.put_bso_sync(put(Some(4), Some("text"), Some(60))).unwrap();
    let mut again = opened(NOW, existing(true));
    let second = again.put_bso_sync(put(Some(4), Some("text"), Some(60))).unwrap();
    assert_eq!(first.as_i64(), second.as_i64());
    for name in ["bsoid", "sortindex", "payload", "modified", "expiry"] {
        assert_eq!(param(statement(&db, 4), name), param(statement(&again, 4), name));
    }
    assert!(statement(&again, 4).sql.starts_with("UPDATE bso SET "));
    assert_eq!(
        param(statement(&db, 2), "last_modified"),
        param(statement(&again, 2), "last_modified")
    );
}

#[test]
fn the_time_of_an_object_is_that_in_the_object() {
    let params = || GetBsoTimestamp {
        user_id: user(3),
        collection: "bookmarks".to_string(),
        id: "b1".to_string(),
    };
    let time = "2018-01-01T00:00:00.007Z";
    let mut db = opened(NOW, vec![reply(&[&["b1", time, "p", "0", time]])]);
    let mut other = opened(NOW, vec![reply(&[&[time]])]);
    assert_eq!(
        db.get_bso_sync(get("b1")).unwrap().unwrap().modified.as_i64(),
        other.get_bso_timestamp_sync(params()).unwrap().as_i64()
    );
}
