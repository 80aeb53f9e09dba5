//! Figures about a user's storage, and deleting.

use syncstorage::cache::CollectionCache;
use syncstorage::conn::{
    Answer, Conn, ExecuteSqlRequest, Reply, Request, ResultSetStats, SyncResultSet,
};
use syncstorage::db::SpannerDb;
use syncstorage::error::Stop;
use syncstorage::params::{DeleteBso, DeleteBsos, DeleteCollection, UserIdentifier};
use syncstorage::table::Table;
use syncstorage::timestamp::SyncTimestamp;

fn reply(rows: &[&[&str]]) -> Answer {
    Answer::Reply(Reply {
        transaction_id: None,
        result: SyncResultSet {
            rows: rows
                .iter()
                .map(|row| row.iter().map(|cell| cell.to_string()).collect())
                .collect(),
            stats: None,
        },
    })
}

fn begun(id: &str) -> Answer {
    Answer::Reply(Reply {
        transaction_id: Some(id.to_string()),
        result: SyncResultSet { rows: Vec::new(), stats: None },
    })
}

/// A storage at that time, with those answers on record.
fn storage(now: i64, answers: Vec<Answer>) -> SpannerDb {
    let mut conn = Conn::new(false);
    for answer in answers {
        conn.answer(answer);
    }
    SpannerDb::new(conn, CollectionCache::new(), SyncTimestamp::from_i64(now).unwrap())
}

fn user(id: u64) -> UserIdentifier {
    UserIdentifier { legacy_id: id }
}

fn statement(db: &SpannerDb, index: usize) -> &ExecuteSqlRequest {
    match &db.inner.conn.sent()[index] {
        Request::Execute(request) => request,
        other => panic!("not a statement: {:?}", other),
    }
}

fn param<'a>(request: &'a ExecuteSqlRequest, name: &str) -> Option<&'a str> {
    request.params.get(&name.to_string()).map(|value| value.as_str())
}

fn failure<T>(result: Result<T, Stop>) -> String {
    match result {
        Err(Stop::Failed(error)) => error.to_text(),
        _ => panic!("expected a failure"),
    }
}

fn deleted(count: &str) -> Answer {
    Answer::Reply(Reply {
        transaction_id: None,
        result: SyncResultSet {
            rows: Vec::new(),
            stats: Some(ResultSetStats { row_count_exact: Some(count.to_string()) }),
        },
    })
}

/// A storage with an open transaction that knows one collection.
fn opened(now: i64, answers: Vec<Answer>) -> SpannerDb {
    let mut all = vec![begun("t")];
    all.extend(answers);
    let mut db = storage(now, all);
    db.begin(true).unwrap();
    db.coll_cache.put(7, "bookmarks".to_string());
    db
}

#[test]
fn times_are_given_by_name() {
    let mut db = opened(
        0,
        vec![
            reply(&[
                &["7", "2019-01-01T00:00:00Z"],
                &["8", "2019-01-01T00:00:01Z"],
            ]),
            reply(&[&["7", "ignored"], &["8", "history"], &["9", "tabs"]]),
        ],
    );
    let times = db.get_collection_timestamps_sync(user(3)).unwrap();
    assert_eq!(times.len(), 2);
    assert_eq!(times.get(&"bookmarks".to_string()).unwrap().as_i64(), 1_546_300_800_000);
    assert_eq!(times.get(&"history".to_string()).unwrap().as_i64(), 1_546_300_801_000);
    assert_eq!(
        statement(&db, 1).sql,
        "SELECT collection, last_modified FROM user_collections WHERE userid=@userid"
    );
    assert_eq!(param(statement(&db, 1), "userid"), Some("3"));
    assert_eq!(statement(&db, 2).sql, "SELECT collectionid, name FROM collections");
    // Only what was asked for is cached.
    assert_eq!(db.coll_cache.get_name(8).unwrap(), "history");
    assert!(db.coll_cache.get_name(9).is_none());
}

#[test]
fn names_that_are_cached_are_not_asked_for() {
    let mut db = opened(0, vec![reply(&[&["7", "12"]])]);
    let counts = db.get_collection_counts_sync(user(3)).unwrap();
    assert_eq!(counts.get(&"bookmarks".to_string()), Some(&12));
    assert_eq!(db.inner.conn.sent().len(), 2);
    assert_eq!(
        statement(&db, 1).sql,
        "SELECT collection, COUNT(collection) FROM bso WHERE userid=@userid AND ttl > CURRENT_TIMESTAMP() GROUP BY collection"
    );
}

#[test]
fn usage_is_given_by_name() {
    let mut db = opened(0, vec![reply(&[&["7", "1024"]])]);
    let usage = db.get_collection_usage_sync(user(3)).unwrap();
    assert_eq!(usage.get(&"bookmarks".to_string()), Some(&1024));
    assert_eq!(
        statement(&db, 1).sql,
        "SELECT collection, SUM(LENGTH(payload)) FROM bso WHERE userid=@userid AND ttl > CURRENT_TIMESTAMP() GROUP BY collection"
    );
}

#[test]
fn a_user_without_collections_has_no_figures() {
    let mut db = opened(0, vec![reply(&[])]);
    assert_eq!(db.get_collection_usage_sync(user(3)).unwrap().len(), 0);
    assert_eq!(db.inner.conn.sent().len(), 2);
}

#[test]
fn a_later_row_of_a_collection_counts() {
    let mut db = opened(0, vec![reply(&[&["7", "1"], &["7", "2"]])]);
    let counts = db.get_collection_counts_sync(user(3)).unwrap();
    assert_eq!(counts.get(&"bookmarks".to_string()), Some(&2));
}

#[test]
fn a_collection_without_a_name_is_an_error() {
    let mut db = opened(0, vec![reply(&[&["8", "1"]]), reply(&[&["9", "tabs"]])]);
    assert_eq!(
        failure(db.get_collection_counts_sync(user(3))),
        "Unexpected error: load_collection_names get"
    );
}

#[test]
fn figures_that_are_no_numbers_are_integrity_errors() {
    let mut db = opened(0, vec![reply(&[&["7", "few"]])]);
    assert_eq!(
        failure(db.get_collection_counts_sync(user(3))),
        "Database integrity error: invalid digit found in string"
    );
    let mut db = opened(0, vec![reply(&[&["x", "1"]])]);
    assert_eq!(
        failure(db.get_collection_usage_sync(user(3))),
        "Database integrity error: invalid digit found in string"
    );
    let mut db = opened(0, vec![reply(&[&["7", "never"]])]);
    assert_eq!(
        failure(db.get_collection_timestamps_sync(user(3))),
        "Database integrity error: Invalid TIMESTAMP premature end of input"
    );
}

#[test]
fn a_list_of_names_that_cannot_be_read_is_a_fault() {
    let mut db = opened(0, vec![reply(&[&["8", "1"]]), reply(&[&["x", "tabs"]])]);
    assert!(matches!(db.get_collection_counts_sync(user(3)), Err(Stop::Fault)));
    let mut db = opened(0, vec![reply(&[&["8", "1"]]), reply(&[&["8"]])]);
    assert!(matches!(db.get_collection_counts_sync(user(3)), Err(Stop::Fault)));
}

#[test]
fn storage_time_is_the_greatest() {
    let mut db = opened(0, vec![reply(&[&["2019-01-01T00:00:00Z"]])]);
    assert_eq!(db.get_storage_timestamp_sync(user(3)).unwrap().as_i64(), 1_546_300_800_000);
    assert_eq!(
        statement(&db, 1).sql,
        "SELECT COALESCE(MAX(last_modified), TIMESTAMP '0001-01-01T00:00:00Z') FROM user_collections WHERE userid=@userid"
    );
}

#[test]
fn storage_time_of_nothing_is_zero() {
    let mut db = opened(0, vec![reply(&[&["0001-01-01T00:00:00Z"]])]);
    assert_eq!(db.get_storage_timestamp_sync(user(3)).unwrap().as_i64(), 0);
    let mut db = opened(0, vec![reply(&[])]);
    assert_eq!(db.get_storage_timestamp_sync(user(3)).unwrap().as_i64(), 0);
    // The same instant in another text is before the epoch, and no time stamp.
    let mut db = opened(0, vec![reply(&[&["0001-01-01T00:00:00.0Z"]])]);
    assert_eq!(
        failure(db.get_storage_timestamp_sync(user(3))),
        "Database integrity error: Invalid modified i64 (< 0)"
    );
}

#[test]
fn storage_usage_is_a_sum() {
    let mut db = opened(0, vec![reply(&[&["4096"]])]);
    assert_eq!(db.get_storage_usage_sync(user(3)).unwrap(), 4096);
    assert_eq!(
        statement(&db, 1).sql,
        "SELECT SUM(LENGTH(payload)) FROM bso WHERE userid=@userid AND ttl > CURRENT_TIMESTAMP() GROUP BY userid"
    );
    let mut db = opened(0, vec![reply(&[])]);
    assert_eq!(db.get_storage_usage_sync(user(3)).unwrap(), 0);
    let mut db = opened(0, vec![reply(&[&["-1"]])]);
    assert_eq!(db.get_storage_usage_sync(user(3)).unwrap(), u64::MAX);
}

#[test]
fn deleting_the_storage_is_one_statement() {
    let mut db = opened(0, vec![reply(&[])]);
    db.delete_storage_sync(user(4_294_967_299)).unwrap();
    assert_eq!(db.inner.conn.sent().len(), 2);
    assert_eq!(statement(&db, 1).sql, "DELETE FROM user_collections WHERE userid=@userid");
    assert_eq!(param(statement(&db, 1), "userid"), Some("3"));
}

#[test]
fn deleting_a_collection_deletes_its_objects_first() {
    let mut db = opened(0, vec![reply(&[]), reply(&[]), reply(&[&["2019-01-01T00:00:00Z"]])]);
    let params = DeleteCollection { user_id: user(3), collection: "bookmarks".to_string() };
    assert_eq!(db.delete_collection_sync(params).unwrap().as_i64(), 1_546_300_800_000);
    assert_eq!(
        statement(&db, 1).sql,
        "DELETE FROM bso WHERE userid=@userid AND collection=@collectionid"
    );
    assert_eq!(
        statement(&db, 2).sql,
        "DELETE FROM user_collections WHERE userid=@userid AND collection=@collectionid"
    );
    assert_eq!(param(statement(&db, 2), "collectionid"), Some("7"));
    assert_eq!(db.inner.conn.sent().len(), 4);
}

#[test]
fn deleting_an_unknown_collection_fails() {
    let mut db = opened(0, vec![reply(&[])]);
    let params = DeleteCollection { user_id: user(3), collection: "none".to_string() };
    assert_eq!(failure(db.delete_collection_sync(params)), "Specified collection does not exist");
    assert_eq!(db.inner.conn.sent().len(), 2);
}

fn one(id: &str) -> DeleteBso {
    DeleteBso { user_id: user(3), collection: "bookmarks".to_string(), id: id.to_string() }
}

#[test]
fn deleting_an_object_touches_its_collection() {
    let mut db = opened(1000, vec![reply(&[&["1"]]), reply(&[]), deleted("1")]);
    assert_eq!(db.delete_bso_sync(one("b1")).unwrap().as_i64(), 1000);
    let delete = statement(&db, 3);
    assert_eq!(
        delete.sql,
        "DELETE FROM bso WHERE userid=@userid AND collection=@collectionid AND id=@bsoid"
    );
    assert_eq!(param(delete, "bsoid"), Some("b1"));
    assert_eq!(param(delete, "userid"), Some("3"));
    assert_eq!(param(delete, "collectionid"), Some("7"));
}

#[test]
fn deleting_an_object_that_is_not_there_fails() {
    let mut db = opened(1000, vec![reply(&[&["1"]]), reply(&[]), deleted("0")]);
    assert_eq!(failure(db.delete_bso_sync(one("b1"))), "Specified bso does not exist");
}

#[test]
fn deleting_needs_to_know_how_many() {
    let mut db = opened(1000, vec![reply(&[&["1"]]), reply(&[]), reply(&[])]);
    assert_eq!(
        failure(db.delete_bso_sync(one("b1"))),
        "Unexpected error: Expected result_set stats"
    );
}

fn several(ids: &[&str]) -> DeleteBsos {
    DeleteBsos {
        user_id: user(3),
        collection: "bookmarks".to_string(),
        ids: ids.iter().map(|id| id.to_string()).collect(),
    }
}

#[test]
fn deleting_objects_deletes_each_and_touches_once_more() {
    let mut answers = Vec::new();
    for _ in 0..2 {
        answers.push(reply(&[]));
        answers.push(reply(&[&["1"]]));
        answers.push(reply(&[]));
        answers.push(deleted("1"));
    }
    answers.push(reply(&[&["1"]]));
    answers.push(reply(&[]));
    let mut db = opened(1000, answers);
    assert_eq!(db.delete_bsos_sync(several(&["a", "b"])).unwrap().as_i64(), 1000);
    assert_eq!(db.inner.conn.sent().len(), 11);
    assert_eq!(
        statement(&db, 1).sql,
        "SELECT 1 FROM bso WHERE userid=@userid AND collection=@collectionid AND id=@bsoid"
    );
    assert_eq!(param(statement(&db, 1), "bsoid"), Some("a"));
    assert_eq!(param(statement(&db, 4), "bsoid"), Some("a"));
    assert_eq!(param(statement(&db, 5), "bsoid"), Some("b"));
    assert_eq!(param(statement(&db, 8), "bsoid"), Some("b"));
}

#[test]
fn deleting_objects_stops_at_the_first_that_fails() {
    let mut db = opened(
        1000,
        vec![reply(&[]), reply(&[&["1"]]), reply(&[]), deleted("0")],
    );
    assert_eq!(
        failure(db.delete_bsos_sync(several(&["a", "b"]))),
        "Specified bso does not exist"
    );
    assert_eq!(db.inner.conn.sent().len(), 5);
}

#[test]
fn deleting_no_objects_is_an_error() {
    let mut db = opened(1000, Vec::new());
    assert_eq!(failure(db.delete_bsos_sync(several(&[]))), "Specified bso does not exist");
    assert_eq!(db.inner.conn.sent().len(), 1);
}

#[test]
fn statements_of_an_operation_name_one_user() {
    let mut db = opened(
        1000,
        vec![reply(&[]), reply(&[&["1"]]), reply(&[]), deleted("1"), reply(&[]), reply(&[])],
    );
    db.delete_bsos_sync(several(&["a"])).unwrap();
    for index in 1..db.inner.conn.sent().len() {
        assert_eq!(param(statement(&db, index), "userid"), Some("3"));
    }
}

#[test]
fn values_are_put_under_the_names_of_their_collections() {
    let mut db = opened(0, vec![reply(&[&["8", "history"]])]);
    let mut by_id = Table::new();
    by_id.insert(7, 70i64);
    by_id.insert(8, 80i64);
    let by_name = db.map_collection_names(by_id).unwrap();
    assert_eq!(by_name.get(&"bookmarks".to_string()), Some(&70));
    assert_eq!(by_name.get(&"history".to_string()), Some(&80));
    // Both names are known now.
    let names = db.load_collection_names(&vec![7, 8]).unwrap();
    assert_eq!(names.len(), 2);
    assert_eq!(db.inner.conn.sent().len(), 2);
}

#[test]
fn an_object_is_deleted_once() {
    let mut db = opened(1000, vec![reply(&[&["1"]]), reply(&[]), deleted("1")]);
    assert_eq!(db.delete_bso_sync(one("b1")).unwrap().as_i64(), 1000);
    let mut again = opened(2000, vec![reply(&[&["1"]]), reply(&[]), deleted("0")]);
    assert_eq!(failure(again.delete_bso_sync(one("b1"))), "Specified bso does not exist");
}

#[test]
fn the_storage_is_as_late_as_its_latest_collection() {
    let early = "2018-01-01T00:00:00Z";
    let late = "2019-01-01T00:00:00Z";
    let mut db = opened(
        0,
        vec![
            reply(&[&["7", early], &["8", late]]),
            reply(&[&["8", "history"]]),
            reply(&[&[late]]),
        ],
    );
    let times = db.get_collection_timestamps_sync(user(3)).unwrap();
    let storage_time = db.get_storage_timestamp_sync(user(3)).unwrap().as_i64();
    let greatest = times.entries().iter().map(|(_, time)| time.as_i64()).max();
    assert_eq!(greatest, Some(storage_time));
}

#[test]
fn the_storage_holds_what_its_collections_hold() {
    let mut db = opened(
        0,
        vec![
            reply(&[&["7", "100"], &["8", "23"]]),
            reply(&[&["8", "history"]]),
            reply(&[&["123"]]),
        ],
    );
    let usage = db.get_collection_usage_sync(user(3)).unwrap();
    let total: i64 = usage.entries().iter().map(|(_, held)| *held).sum();
    assert_eq!(db.get_storage_usage_sync(user(3)).unwrap(), total as u64);
}
