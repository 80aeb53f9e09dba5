//! Tables, numbers, and the rows that a statement returned.

use syncstorage::cache::CollectionCache;
use syncstorage::conn::{ResultSetStats, SyncResultSet};
use syncstorage::decimal::{decimal_text, natural_text};
use syncstorage::error::Stop;
use syncstorage::rows::{i32_at, i64_at, stamp_at, text_at};
use syncstorage::table::Table;

fn row(cells: &[&str]) -> Vec<String> {
    cells.iter().map(|cell| cell.to_string()).collect()
}

fn failure<T>(result: Result<T, Stop>) -> String {
    match result {
        Err(Stop::Failed(error)) => error.to_text(),
        _ => panic!("expected a failure"),
    }
}

fn is_fault<T>(result: Result<T, Stop>) -> bool {
    matches!(result, Err(Stop::Fault))
}

#[test]
fn numbers_are_written_in_decimal() {
    assert_eq!(natural_text(0), "0");
    assert_eq!(natural_text(10), "10");
    assert_eq!(natural_text(u64::MAX), "18446744073709551615");
    assert_eq!(decimal_text(-1), "-1");
    assert_eq!(decimal_text(i64::MIN), "-9223372036854775808");
    assert_eq!(decimal_text(907), "907");
}

#[test]
fn cells_hold_thirty_two_bit_numbers() {
    let cells = row(&["42", "+7", "-2147483648", "2147483648", "", "4x", "-"]);
    assert_eq!(i32_at(&cells, 0).unwrap(), 42);
    assert_eq!(i32_at(&cells, 1).unwrap(), 7);
    assert_eq!(i32_at(&cells, 2).unwrap(), i32::MIN);
    assert_eq!(
        failure(i32_at(&cells, 3)),
        "Database integrity error: number too large to fit in target type"
    );
    assert_eq!(
        failure(i32_at(&cells, 4)),
        "Database integrity error: cannot parse integer from empty string"
    );
    assert_eq!(
        failure(i32_at(&cells, 5)),
        "Database integrity error: invalid digit found in string"
    );
    assert_eq!(
        failure(i32_at(&cells, 6)),
        "Database integrity error: invalid digit found in string"
    );
    assert!(is_fault(i32_at(&cells, 7)));
}

#[test]
fn cells_hold_sixty_four_bit_numbers() {
    let cells = row(&["9223372036854775807", "9223372036854775808", "-0"]);
    assert_eq!(i64_at(&cells, 0).unwrap(), i64::MAX);
    assert_eq!(
        failure(i64_at(&cells, 1)),
        "Database integrity error: number too large to fit in target type"
    );
    assert_eq!(i64_at(&cells, 2).unwrap(), 0);
}

#[test]
fn cells_hold_times_and_texts() {
    let cells = row(&["2019-01-01T00:00:00Z", "soon"]);
    assert_eq!(stamp_at(&cells, 0).unwrap().as_i64(), 1_546_300_800_000);
    assert_eq!(
        failure(stamp_at(&cells, 1)),
        "Database integrity error: Invalid TIMESTAMP premature end of input"
    );
    assert!(is_fault(stamp_at(&cells, 2)));
    assert_eq!(text_at(&cells, 1).unwrap(), "soon");
    assert!(is_fault(text_at(&cells, 2)));
}

#[test]
fn one_row_or_none() {
    let set = |n: usize| SyncResultSet { rows: vec![row(&["a"]); n], stats: None };
    assert!(set(0).one_or_none().unwrap().is_none());
    assert_eq!(set(1).one_or_none().unwrap().unwrap()[0], "a");
    assert_eq!(failure(set(2).one_or_none()), "Unexpected error: Expected one result; got more.");
    assert_eq!(failure(set(0).one()), "Unexpected error: No rows matched the given query.");
    assert_eq!(set(1).one().unwrap()[0], "a");
    assert_eq!(failure(set(2).one()), "Unexpected error: Expected one result; got more.");
}

#[test]
fn affected_rows_come_from_the_stats() {
    let set = |stats: Option<Option<&str>>| SyncResultSet {
        rows: Vec::new(),
        stats: stats.map(|count| ResultSetStats { row_count_exact: count.map(|c| c.to_string()) }),
    };
    assert_eq!(set(Some(Some("3"))).affected_rows().unwrap(), 3);
    assert_eq!(
        set(None).affected_rows().unwrap_err().to_text(),
        "Unexpected error: Expected result_set stats"
    );
    assert_eq!(
        set(Some(None)).affected_rows().unwrap_err().to_text(),
        "Unexpected error: Expected result_set stats row_count_exact"
    );
    assert_eq!(
        set(Some(Some("many"))).affected_rows().unwrap_err().to_text(),
        "Unexpected error: Invalid row_count_exact i64 value invalid digit found in string"
    );
}

#[test]
fn tables_hold_one_value_per_key() {
    let mut table: Table<(u32, i32), String> = Table::new();
    table.insert((1, 2), "a".to_string());
    table.insert((1, 3), "b".to_string());
    table.insert((1, 2), "c".to_string());
    assert_eq!(table.len(), 2);
    assert_eq!(table.get(&(1, 2)).unwrap(), "c");
    assert!(table.get(&(2, 2)).is_none());
    let copy = table.clone();
    assert_eq!(table.remove(&(1, 2)).unwrap(), "c");
    assert!(table.remove(&(1, 2)).is_none());
    assert_eq!(table.len(), 1);
    assert_eq!(copy.len(), 2);
    assert_eq!(table.keys(), vec![(1, 3)]);
    assert_eq!(copy.entries().len(), 2);
    assert_eq!(table.into_entries(), vec![((1, 3), "b".to_string())]);
}

#[test]
fn cache_knows_collections_both_ways() {
    let mut cache = CollectionCache::new();
    let name = "bookmarks".to_string();
    assert!(cache.get_id(&name).is_none());
    assert!(cache.get_name(7).is_none());
    cache.put(7, name.clone());
    assert_eq!(cache.get_id(&name), Some(7));
    assert_eq!(cache.get_name(7).unwrap(), "bookmarks");
}

#[test]
fn a_cache_takes_over_what_another_knows() {
    let mut shared = CollectionCache::new();
    shared.put(1, "clients".to_string());
    shared.put(7, "old".to_string());
    let mut other = CollectionCache::new();
    other.put(7, "bookmarks".to_string());
    shared.absorb(&other);
    assert_eq!(shared.get_name(1).unwrap(), "clients");
    assert_eq!(shared.get_name(7).unwrap(), "bookmarks");
    assert_eq!(shared.get_id(&"bookmarks".to_string()), Some(7));
    assert_eq!(shared.get_id(&"old".to_string()), Some(7));
}
