//! Transactions, statements, collections and locks.

use syncstorage::cache::CollectionCache;
use syncstorage::conn::{
    Answer, Conn, ExecuteSqlRequest, Reply, Request, SpannerType, SyncResultSet, TransactionMode,
};
use syncstorage::db::{CollectionLock, SpannerDb};
use syncstorage::error::Stop;
use syncstorage::params::{GetCollectionTimestamp, LockCollection, UserIdentifier};
use syncstorage::timestamp::{SyncTimestamp, LAST_INSTANT};

fn reply(rows: &[&[&str]]) -> Answer {
    Answer::Reply(Reply {
        transaction_id: None,
        result: SyncResultSet {
            rows: rows
                .iter()
                .map(|row| row.iter().map(|cell| cell.to_string()).collect())
                .collect(),
            stats: None,
        },
    })
}

fn begun(id: &str) -> Answer {
    Answer::Reply(Reply {
        transaction_id: Some(id.to_string()),
        result: SyncResultSet { rows: Vec::new(), stats: None },
    })
}

/// A storage at that time, with those answers on record.
fn storage(now: i64, answers: Vec<Answer>) -> SpannerDb {
    let mut conn = Conn::new(false);
    for answer in answers {
        conn.answer(answer);
    }
    SpannerDb::new(conn, CollectionCache::new(), SyncTimestamp::from_i64(now).unwrap())
}

fn user(id: u64) -> UserIdentifier {
    UserIdentifier { legacy_id: id }
}

fn statement(db: &SpannerDb, index: usize) -> &ExecuteSqlRequest {
    match &db.inner.conn.sent()[index] {
        Request::Execute(request) => request,
        other => panic!("not a statement: {:?}", other),
    }
}

fn param<'a>(request: &'a ExecuteSqlRequest, name: &str) -> Option<&'a str> {
    request.params.get(&name.to_string()).map(|value| value.as_str())
}

fn failure<T>(result: Result<T, Stop>) -> String {
    match result {
        Err(Stop::Failed(error)) => error.to_text(),
        _ => panic!("expected a failure"),
    }
}

fn lock(name: &str) -> LockCollection {
    LockCollection { user_id: user(7), collection: name.to_string() }
}

fn asked_for(name: &str) -> GetCollectionTimestamp {
    GetCollectionTimestamp { user_id: user(7), collection: name.to_string() }
}

#[test]
fn an_operation_waits_for_each_reply_and_then_goes_on() {
    let mut start = storage(0, Vec::new());
    let name = "bookmarks".to_string();

    let mut run = start.clone();
    assert!(matches!(run.get_collection_id(&name), Err(Stop::Waiting)));
    assert_eq!(run.inner.conn.sent().len(), 1);
    assert!(matches!(
        run.inner.conn.pending(),
        Some(Request::Begin(TransactionMode::ReadWrite))
    ));

    start.inner.conn.answer(begun("t1"));
    let mut run = start.clone();
    assert!(matches!(run.get_collection_id(&name), Err(Stop::Waiting)));
    assert_eq!(run.inner.conn.sent().len(), 2);
    match run.inner.conn.pending() {
        Some(Request::Execute(request)) => {
            assert_eq!(request.sql, "SELECT collectionid FROM collections WHERE name = @name");
            assert_eq!(request.seqno, "0");
            assert_eq!(
                request.transaction.as_ref().unwrap().id.as_ref().unwrap().as_str(),
                "t1"
            );
            assert_eq!(param(request, "name"), Some("bookmarks"));
        }
        _ => panic!("expected a statement"),
    }

    start.inner.conn.answer(reply(&[&["7"]]));
    let mut run = start.clone();
    assert_eq!(run.get_collection_id(&name).unwrap(), 7);
    assert!(run.inner.conn.pending().is_none());
    assert_eq!(run.inner.conn.sent().len(), 2);
    assert_eq!(run.coll_cache.get_name(7).unwrap(), "bookmarks");
    // The copy that it started from has not moved.
    assert_eq!(start.inner.conn.sent().len(), 0);
    assert!(start.coll_cache.get_name(7).is_none());
}

#[test]
fn a_cached_collection_id_sends_nothing() {
    let mut db = storage(0, vec![begun("t"), reply(&[&["7"]])]);
    let name = "bookmarks".to_string();
    assert_eq!(db.get_collection_id(&name).unwrap(), 7);
    assert_eq!(db.get_collection_id(&name).unwrap(), 7);
    assert_eq!(db.inner.conn.sent().len(), 2);
    assert_eq!(db.inner.session.execute_sql_count, 1);
}

#[test]
fn an_unknown_collection_is_not_found() {
    let mut db = storage(0, vec![begun("t"), reply(&[])]);
    assert_eq!(
        failure(db.get_collection_id(&"none".to_string())),
        "Specified collection does not exist"
    );
    assert_eq!(db.inner.conn.sent().len(), 2);
}

#[test]
fn an_error_of_spanner_is_passed_on() {
    let mut db = storage(0, vec![Answer::Error("503".to_string())]);
    assert_eq!(
        failure(db.get_collection_id(&"any".to_string())),
        "A database error occurred: 503"
    );
}

#[test]
fn a_collection_id_that_is_no_number_is_an_integrity_error() {
    let mut db = storage(0, vec![begun("t"), reply(&[&["seven"]])]);
    assert_eq!(
        failure(db.get_collection_id(&"any".to_string())),
        "Database integrity error: invalid digit found in string"
    );
}

#[test]
fn a_row_without_columns_is_a_fault() {
    let mut db = storage(0, vec![begun("t"), reply(&[&[]])]);
    assert!(matches!(db.get_collection_id(&"any".to_string()), Err(Stop::Fault)));
}

#[test]
fn a_created_collection_follows_the_greatest_id() {
    let mut db = storage(0, vec![begun("t"), reply(&[&["150"]]), reply(&[])]);
    let name = "new".to_string();
    assert_eq!(db.create_collection(&name).unwrap(), 151);
    assert_eq!(
        statement(&db, 1).sql,
        "SELECT COALESCE(MAX(collectionid), 1) from collections"
    );
    let insert = statement(&db, 2);
    assert_eq!(
        insert.sql,
        "INSERT INTO collections (collectionid, name) VALUES (@collectionid, @name)"
    );
    assert_eq!(param(insert, "collectionid"), Some("151"));
    assert_eq!(param(insert, "name"), Some("new"));
    assert_eq!(insert.seqno, "1");
    assert_eq!(db.get_collection_id(&name).unwrap(), 151);
    assert_eq!(db.inner.conn.sent().len(), 3);
}

#[test]
fn ids_below_a_hundred_are_not_given_out() {
    for (greatest, id) in [("1", 100), ("13", 100), ("98", 100), ("99", 100), ("100", 101)] {
        let mut db = storage(0, vec![begun("t"), reply(&[&[greatest]]), reply(&[])]);
        let name = "new".to_string();
        assert_eq!(db.create_collection(&name).unwrap(), id);
        let text = format!("{}", id);
        assert_eq!(param(statement(&db, 2), "collectionid"), Some(text.as_str()));
        assert_eq!(db.coll_cache.get_id(&name), Some(id));
        assert_eq!(db.coll_cache.get_name(id).unwrap(), "new");
    }
}

#[test]
fn the_greatest_id_of_all_has_no_successor() {
    let mut db = storage(0, vec![begun("t"), reply(&[&["2147483647"]])]);
    assert!(matches!(db.create_collection(&"new".to_string()), Err(Stop::Fault)));
}

#[test]
fn the_greatest_id_must_come_back() {
    let mut db = storage(0, vec![begun("t"), reply(&[])]);
    assert_eq!(
        failure(db.create_collection(&"new".to_string())),
        "Unexpected error: No rows matched the given query."
    );
}

#[test]
fn a_missing_collection_is_created_and_then_known() {
    let mut db = storage(0, vec![begun("t"), reply(&[]), reply(&[&["200"]]), reply(&[])]);
    let name = "new".to_string();
    assert_eq!(db.get_or_create_collection_id(&name).unwrap(), 201);
    assert_eq!(db.get_or_create_collection_id(&name).unwrap(), 201);
    assert_eq!(db.inner.conn.sent().len(), 4);
}

#[test]
fn statements_are_numbered_in_one_transaction() {
    let mut db = storage(0, vec![begun("t")]);
    for number in ["0", "1", "2"] {
        let request = db.sql("SELECT 1").unwrap();
        assert_eq!(request.seqno, number);
        assert_eq!(
            request.transaction.unwrap().id.unwrap(),
            "t"
        );
        assert_eq!(request.params.len(), 0);
        assert_eq!(request.param_types.len(), 0);
    }
    assert_eq!(db.inner.conn.sent().len(), 1);
}

#[test]
fn the_statement_counter_can_run_out() {
    let mut db = storage(0, vec![begun("t")]);
    db.inner.session.execute_sql_count = u64::MAX;
    assert!(matches!(db.sql("SELECT 1"), Err(Stop::Fault)));
}

#[test]
fn commit_and_rollback_name_the_open_transaction() {
    let ok = || reply(&[]);
    let mut db = storage(0, vec![begun("t"), ok(), ok()]);
    db.begin(true).unwrap();
    db.commit_sync().unwrap();
    db.rollback_sync().unwrap();
    let sent = db.inner.conn.sent();
    assert_eq!(sent.len(), 3);
    assert!(matches!(&sent[1], Request::Commit(Some(id)) if id == "t"));
    assert!(matches!(&sent[2], Request::Rollback(Some(id)) if id == "t"));
}

#[test]
fn commit_without_a_transaction_begins_one() {
    let mut db = storage(0, vec![begun("t"), reply(&[])]);
    db.commit_sync().unwrap();
    assert!(matches!(&db.inner.conn.sent()[0], Request::Begin(TransactionMode::ReadWrite)));
    assert!(matches!(&db.inner.conn.sent()[1], Request::Commit(Some(id)) if id == "t"));
}

#[test]
fn a_commit_that_fails_is_reported() {
    let mut db = storage(0, vec![begun("t"), Answer::Error("aborted".to_string())]);
    assert_eq!(failure(db.commit_sync()), "A database error occurred: aborted");
}

#[test]
fn test_transactions_are_never_committed() {
    let mut conn = Conn::new(true);
    conn.answer(begun("t"));
    conn.answer(reply(&[]));
    let mut db = SpannerDb::new(conn, CollectionCache::new(), SyncTimestamp::zero());
    db.commit_sync().unwrap();
    assert_eq!(db.inner.conn.sent().len(), 0);
    db.rollback_sync().unwrap();
    assert_eq!(db.inner.conn.sent().len(), 2);
}

const LOCK_SQL: &str = "SELECT CURRENT_TIMESTAMP() as now, last_modified FROM user_collections WHERE userid=@userid AND collection=@collectionid";

#[test]
fn a_read_lock_begins_a_transaction_for_reading() {
    let mut db = storage(
        0,
        vec![
            begun("first"),
            reply(&[&["7"]]),
            begun("locked"),
            reply(&[&["2019-01-01T00:00:00Z", "2018-01-01T00:00:00Z"]]),
        ],
    );
    db.lock_for_read_sync(lock("bookmarks")).unwrap();
    assert!(matches!(&db.inner.conn.sent()[2], Request::Begin(TransactionMode::ReadOnly)));
    let request = statement(&db, 3);
    assert_eq!(request.sql, LOCK_SQL);
    assert_eq!(param(request, "userid"), Some("7"));
    assert_eq!(param(request, "collectionid"), Some("7"));
    assert_eq!(request.transaction.as_ref().unwrap().id.as_ref().unwrap().as_str(), "locked");
    assert_eq!(request.seqno, "1");
    assert_eq!(db.inner.session.coll_locks.get(&(7, 7)), Some(&CollectionLock::Read));
    assert_eq!(
        db.inner.session.coll_modified_cache.get(&(7, 7)).unwrap().as_i64(),
        1_514_764_800_000
    );
}

#[test]
fn a_second_read_lock_sends_nothing() {
    let mut db = storage(0, vec![begun("a"), reply(&[&["7"]]), begun("b"), reply(&[])]);
    db.lock_for_read_sync(lock("bookmarks")).unwrap();
    db.lock_for_read_sync(lock("bookmarks")).unwrap();
    assert_eq!(db.inner.conn.sent().len(), 4);
    assert_eq!(db.inner.session.coll_modified_cache.len(), 0);
}

#[test]
fn a_read_lock_is_not_escalated() {
    let mut db = storage(0, vec![begun("a"), reply(&[&["7"]]), begun("b"), reply(&[])]);
    db.lock_for_read_sync(lock("bookmarks")).unwrap();
    assert_eq!(
        failure(db.lock_for_write_sync(lock("bookmarks"))),
        "Unexpected error: Can't escalate read-lock to write-lock"
    );
    assert_eq!(db.inner.conn.sent().len(), 4);
    assert_eq!(db.inner.session.coll_locks.get(&(7, 7)), Some(&CollectionLock::Read));
}

#[test]
fn a_write_lock_serves_for_reading() {
    let mut db = storage(0, vec![begun("a"), reply(&[&["7"]]), begun("b"), reply(&[])]);
    db.lock_for_write_sync(lock("bookmarks")).unwrap();
    assert!(matches!(&db.inner.conn.sent()[2], Request::Begin(TransactionMode::ReadWrite)));
    db.lock_for_read_sync(lock("bookmarks")).unwrap();
    assert_eq!(db.inner.conn.sent().len(), 4);
    assert_eq!(db.inner.session.coll_locks.get(&(7, 7)), Some(&CollectionLock::Write));
}

#[test]
fn a_write_lock_creates_the_collection() {
    let mut db = storage(
        0,
        vec![
            begun("a"),
            reply(&[]),
            reply(&[&["120"]]),
            reply(&[]),
            begun("b"),
            reply(&[]),
        ],
    );
    db.lock_for_write_sync(lock("new")).unwrap();
    assert_eq!(db.inner.session.coll_locks.get(&(7, 121)), Some(&CollectionLock::Write));
}

#[test]
fn a_missing_collection_is_locked_under_zero() {
    let mut db = storage(0, vec![begun("a"), reply(&[]), begun("b"), reply(&[])]);
    db.lock_for_read_sync(lock("none")).unwrap();
    assert_eq!(db.inner.session.coll_locks.get(&(7, 0)), Some(&CollectionLock::Read));
    assert_eq!(param(statement(&db, 3), "collectionid"), Some("0"));
    assert!(db.coll_cache.get_id(&"none".to_string()).is_none());
}

#[test]
fn other_errors_do_not_lock() {
    let mut db = storage(0, vec![begun("a"), Answer::Error("down".to_string())]);
    assert_eq!(failure(db.lock_for_read_sync(lock("any"))), "A database error occurred: down");
    assert_eq!(db.inner.session.coll_locks.len(), 0);
}

#[test]
fn a_collection_time_comes_from_the_database() {
    let mut db = storage(
        0,
        vec![begun("a"), reply(&[&["7"]]), reply(&[&["2019-01-01T00:00:00.25Z"]])],
    );
    assert_eq!(
        db.get_collection_timestamp_sync(asked_for("bookmarks")).unwrap().as_i64(),
        1_546_300_800_250
    );
    assert_eq!(
        statement(&db, 2).sql,
        "SELECT last_modified FROM user_collections WHERE userid=@userid AND collection=@collectionid"
    );
}

#[test]
fn a_collection_time_that_a_lock_told_is_kept() {
    let mut db = storage(
        0,
        vec![
            begun("a"),
            reply(&[&["7"]]),
            begun("b"),
            reply(&[&["2019-01-01T00:00:00Z", "2018-01-01T00:00:00Z"]]),
        ],
    );
    db.lock_for_read_sync(lock("bookmarks")).unwrap();
    assert_eq!(
        db.get_collection_timestamp_sync(asked_for("bookmarks")).unwrap().as_i64(),
        1_514_764_800_000
    );
    assert_eq!(db.inner.conn.sent().len(), 4);
}

#[test]
fn a_collection_that_the_user_lacks_has_no_time() {
    let mut db = storage(0, vec![begun("a"), reply(&[&["7"]]), reply(&[])]);
    assert_eq!(
        failure(db.get_collection_timestamp_sync(asked_for("bookmarks"))),
        "Specified collection does not exist"
    );
}

#[test]
fn touching_updates_a_collection_that_is_there() {
    let mut db = storage(1_546_300_800_123, vec![begun("a"), reply(&[&["1"]]), reply(&[])]);
    assert_eq!(db.touch_collection(9, 7).unwrap().as_i64(), 1_546_300_800_123);
    assert_eq!(
        statement(&db, 1).sql,
        "SELECT 1 as count FROM user_collections WHERE userid = @userid AND collection = @collectionid;"
    );
    let update = statement(&db, 2);
    assert_eq!(
        update.sql,
        "UPDATE user_collections SET last_modified=@last_modified WHERE userid=@userid AND collection=@collectionid"
    );
    assert_eq!(param(update, "userid"), Some("9"));
    assert_eq!(param(update, "collectionid"), Some("7"));
    assert_eq!(param(update, "last_modified"), Some("2019-01-01T00:00:00.123000000Z"));
    assert_eq!(
        update.param_types.get(&"last_modified".to_string()),
        Some(&SpannerType::Timestamp)
    );
}

#[test]
fn touching_inserts_a_collection_that_is_not() {
    let mut db = storage(1_546_300_800_123, vec![begun("a"), reply(&[]), reply(&[])]);
    assert_eq!(db.touch_collection(9, 7).unwrap().as_i64(), 1_546_300_800_123);
    let insert = statement(&db, 2);
    assert_eq!(
        insert.sql,
        "INSERT INTO user_collections (userid, collection, last_modified) VALUES (@userid, @collectionid, @modified)"
    );
    assert_eq!(param(insert, "modified"), Some("2019-01-01T00:00:00.123000000Z"));
    assert_eq!(insert.param_types.get(&"modified".to_string()), Some(&SpannerType::Timestamp));
}

#[test]
fn touching_fails_at_a_time_that_cannot_be_written() {
    let mut db = storage(LAST_INSTANT + 1, vec![begun("a"), reply(&[])]);
    assert_eq!(
        failure(db.touch_collection(9, 7)),
        "Unexpected error: Invalid timestamp 8210266876800000"
    );
    assert_eq!(db.inner.conn.sent().len(), 2);
}

#[test]
fn a_session_runs_at_the_time_that_it_was_opened_with() {
    let mut db = storage(5, Vec::new());
    assert_eq!(db.timestamp().as_i64(), 5);
    db.set_timestamp(SyncTimestamp::from_i64(6).unwrap());
    assert_eq!(db.timestamp().as_i64(), 6);
}

#[test]
fn a_lock_that_is_held_answers() {
    let mut db = storage(0, Vec::new());
    db.coll_cache.put(7, "bookmarks".to_string());
    let time = SyncTimestamp::from_i64(44).unwrap();
    db.hold_lock(7, 7, CollectionLock::Write, Some(time));
    db.lock_for_read_sync(lock("bookmarks")).unwrap();
    assert_eq!(db.get_collection_timestamp_sync(asked_for("bookmarks")).unwrap().as_i64(), 44);
    assert_eq!(db.inner.conn.sent().len(), 0);
    db.hold_lock(7, 7, CollectionLock::Read, None);
    assert_eq!(db.inner.session.coll_modified_cache.len(), 1);
    assert_eq!(db.inner.session.coll_locks.get(&(7, 7)), Some(&CollectionLock::Read));
}

#[test]
fn a_write_lock_tells_when_the_collection_was_modified() {
    let mut db = storage(
        0,
        vec![
            begun("a"),
            reply(&[&["7"]]),
            begun("b"),
            reply(&[&["2019-01-01T00:00:00Z", "2018-01-01T00:00:00Z"]]),
        ],
    );
    db.lock_for_write_sync(lock("bookmarks")).unwrap();
    assert_eq!(
        db.get_collection_timestamp_sync(asked_for("bookmarks")).unwrap().as_i64(),
        1_514_764_800_000
    );
    assert_eq!(db.inner.conn.sent().len(), 4);
}

#[test]
fn a_lock_needs_both_columns_of_its_row() {
    let mut db = storage(
        0,
        vec![begun("a"), reply(&[&["7"]]), begun("b"), reply(&[&["2019-01-01T00:00:00Z"]])],
    );
    assert!(matches!(db.lock_for_read_sync(lock("bookmarks")), Err(Stop::Fault)));
    assert_eq!(db.inner.session.coll_locks.len(), 0);
}
