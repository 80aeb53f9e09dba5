//! What holds between figures about single collections and figures about the whole storage.

use vstd::prelude::*;

use crate::conn::{ResultSetView, RowView};
use crate::db::DbView;
use crate::error::StopView;
use crate::laws::{law_collected_rows, law_distinct_names_keep_all_values};
use crate::names::{collect, is_renaming, number_row, stamp_row};
use crate::rows::{cell, i32_cell, i64_cell, stamp_cell};
use crate::storage::no_time;

verus! {

/// No two rows are about one collection.
pub open spec fn distinct_collections(rows: Seq<RowView>) -> bool {
    forall|i: int, j: int|
        #![trigger rows[i], rows[j]]
        0 <= i < j < rows.len() ==> i32_cell(rows[i], 0) != i32_cell(rows[j], 0)
}

/// No two of the ids have one name.
pub open spec fn distinct_names<V>(by_id: Map<i32, V>, names: Map<i32, Seq<char>>) -> bool {
    forall|a: i32, b: i32|
        #![trigger by_id.contains_key(a), by_id.contains_key(b)]
        by_id.contains_key(a) && by_id.contains_key(b) && names[a] == names[b] ==> a == b
}

/// The time is the greatest of those in the map, and 0 where the map is empty.
pub open spec fn is_greatest<K>(times: Map<K, int>, time: int) -> bool {
    if times.dom() == Set::<K>::empty() {
        time == 0
    } else {
        &&& exists|k: K| #[trigger] times.contains_key(k) && times[k] == time
        &&& forall|k: K| #[trigger] times.contains_key(k) ==> times[k] <= time
    }
}

/// What a query for the greatest time gives of rows of a collection id and a time: the text in
/// the row with the greatest, and where there are no rows no row, or one that says so.
pub open spec fn greatest_row(rows: Seq<RowView>, reply: Option<RowView>) -> bool {
    if rows.len() == 0 {
        reply matches Some(row) ==> cell(row, 0) == Ok::<Seq<char>, StopView>(no_time())
    } else {
        &&& reply matches Some(row) && row.len() > 0 && row[0] != no_time()
        &&& exists|k: int|
            #![trigger rows[k]]
            0 <= k < rows.len() && rows[k].len() > 1 && rows[k][1] == reply->Some_0[0] && (forall|
                i: int,
            |
                #![trigger rows[i]]
                0 <= i < rows.len() ==> (stamp_cell(rows[i], 1) matches Ok(time) ==> (stamp_cell(
                    rows[k],
                    1,
                ) matches Ok(greatest) ==> time <= greatest)))
    }
}

/// When the storage was last modified is the greatest of the times of its collections as `first`
/// got them, and 0 where it has none: by collection id, and by name where no two collections
/// have one name.
pub proof fn law_storage_time_is_the_greatest(
    first: DbView,
    db: DbView,
    user: u32,
    result: ResultSetView,
    by_id: Map<i32, int>,
    names: Map<i32, Seq<char>>,
    by_name: Map<Seq<char>, int>,
    reply: Option<RowView>,
)
    requires
        first.user_sql(
            "SELECT collection, last_modified FROM user_collections WHERE userid=@userid"@,
            user,
        ).out == Ok::<ResultSetView, StopView>(result),
        first.get_collection_timestamps(user).out == Ok::<
            (Map<i32, int>, Map<i32, Seq<char>>),
            StopView,
        >((by_id, names)),
        distinct_collections(result.rows),
        is_renaming(by_id, names, by_name),
        db.storage_time_row(user).out == Ok::<Option<RowView>, StopView>(reply),
        greatest_row(result.rows, reply),
    ensures
        db.get_storage_timestamp(user).out matches Ok(time) && is_greatest(by_id, time) && (
        distinct_names(by_id, names) ==> is_greatest(by_name, time)),
{
    let rows = result.rows;
    let read = |row: RowView| stamp_row(row);
    assert(collect(rows, read) == Ok::<Map<i32, int>, StopView>(by_id));
    law_collected_rows(rows, read, by_id);
    if distinct_names(by_id, names) {
        law_distinct_names_keep_all_values(by_id, names, by_name);
    }
    if rows.len() == 0 {
        assert(by_id.dom() =~= Set::<i32>::empty());
        assert forall|name: Seq<char>| !by_name.contains_key(name) by {
            if by_name.contains_key(name) {
                let id = choose|id: i32| #[trigger] by_id.contains_key(id) && names[id] == name;
                assert(by_id.contains_key(id));
            }
        }
        assert(by_name.dom() =~= Set::<Seq<char>>::empty());
    } else {
        let text = reply->Some_0[0];
        let k = choose|k: int|
            #![trigger rows[k]]
            0 <= k < rows.len() && rows[k].len() > 1 && rows[k][1] == text && (forall|i: int|
                #![trigger rows[i]]
                0 <= i < rows.len() ==> (stamp_cell(rows[i], 1) matches Ok(time) ==> (stamp_cell(
                    rows[k],
                    1,
                ) matches Ok(greatest) ==> time <= greatest)));
        assert(read(rows[k]) is Ok);
        let time = stamp_cell(rows[k], 1)->Ok_0;
        let id = read(rows[k])->Ok_0.0;
        assert(by_id.contains_key(id));
        assert(by_id[id] == time) by {
            let i = choose|i: int|
                {
                    &&& 0 <= i < rows.len()
                    &&& #[trigger] read(rows[i]) == Ok::<(i32, int), StopView>((id, by_id[id]))
                    &&& forall|j: int|
                        i < j < rows.len() ==> (#[trigger] read(rows[j]))->Ok_0.0 != id
                };
            assert(read(rows[i]) == Ok::<(i32, int), StopView>((id, by_id[id])));
            assert(i32_cell(rows[i], 0) == i32_cell(rows[k], 0));
            assert(i == k);
        }
        assert forall|other: i32| #[trigger] by_id.contains_key(other) implies by_id[other]
            <= time by {
            let i = choose|i: int|
                {
                    &&& 0 <= i < rows.len()
                    &&& #[trigger] read(rows[i]) == Ok::<(i32, int), StopView>(
                        (other, by_id[other]),
                    )
                    &&& forall|j: int|
                        i < j < rows.len() ==> (#[trigger] read(rows[j]))->Ok_0.0 != other
                };
            assert(read(rows[i]) == Ok::<(i32, int), StopView>((other, by_id[other])));
            assert(stamp_cell(rows[i], 1) == Ok::<int, StopView>(by_id[other]));
        }
        assert(by_id.dom().contains(id));
        assert(by_name.contains_key(names[id]));
        assert(by_name.dom().contains(names[id]));
        assert forall|name: Seq<char>| #[trigger] by_name.contains_key(name) implies by_name[name]
            <= time by {
            let other = choose|other: i32| #[trigger]
                by_id.contains_key(other) && names[other] == name && by_name[name] == by_id[other];
            assert(by_id.contains_key(other));
        }
    }
}

/// The sum of the values of a finite map.
pub open spec fn sum<K>(values: Map<K, i64>) -> int
    decreases values.dom().len(),
{
    if values.dom().finite() && values.dom().len() > 0 {
        let k = values.dom().choose();
        values[k] + sum(values.remove(k))
    } else {
        0
    }
}

/// A sum is one of its values and the sum of the others.
pub proof fn lemma_sum_of_others<K>(values: Map<K, i64>, k: K)
    requires
        values.dom().finite(),
        values.contains_key(k),
    ensures
        sum(values) == values[k] + sum(values.remove(k)),
    decreases values.dom().len(),
{
    let c = values.dom().choose();
    assert(values.dom().len() > 0) by {
        if values.dom().len() == 0 {
            assert(values.dom() =~= Set::<K>::empty());
        }
    }
    assert(values.dom().contains(c));
    if c != k {
        assert(values.remove(c).dom() =~= values.dom().remove(c));
        assert(values.remove(k).dom() =~= values.dom().remove(k));
        lemma_sum_of_others(values.remove(c), k);
        lemma_sum_of_others(values.remove(k), c);
        assert(values.remove(c).remove(k) =~= values.remove(k).remove(c));
    }
}

/// The sum of the numbers in rows of a collection id and a number.
pub open spec fn total(rows: Seq<RowView>) -> int
    decreases rows.len(),
{
    if rows.len() == 0 {
        0
    } else {
        total(rows.drop_last()) + (match number_row(rows.last()) {
            Ok(entry) => entry.1 as int,
            Err(_) => 0,
        })
    }
}

/// The sum of what rows hold by collection is the sum of the rows.
proof fn lemma_collected_sum(rows: Seq<RowView>, by_id: Map<i32, i64>)
    requires
        collect(rows, |row: RowView| number_row(row)) == Ok::<Map<i32, i64>, StopView>(by_id),
        distinct_collections(rows),
    ensures
        by_id.dom().finite(),
        sum(by_id) == total(rows),
    decreases rows.len(),
{
    let read = |row: RowView| number_row(row);
    if rows.len() == 0 {
        assert(by_id.dom() =~= Set::<i32>::empty());
    } else {
        let before = rows.drop_last();
        let last = rows.len() - 1;
        let sofar = collect(before, read)->Ok_0;
        let entry = read(rows.last())->Ok_0;
        assert forall|i: int, j: int|
            #![trigger before[i], before[j]]
            0 <= i < j < before.len() implies i32_cell(before[i], 0) != i32_cell(before[j], 0) by {
            assert(before[i] == rows[i] && before[j] == rows[j]);
        }
        lemma_collected_sum(before, sofar);
        law_collected_rows(before, read, sofar);
        assert(!sofar.contains_key(entry.0)) by {
            if sofar.contains_key(entry.0) {
                let i = choose|i: int|
                    {
                        &&& 0 <= i < before.len()
                        &&& #[trigger] read(before[i]) == Ok::<(i32, i64), StopView>(
                            (entry.0, sofar[entry.0]),
                        )
                        &&& forall|j: int|
                            i < j < before.len() ==> (#[trigger] read(before[j]))->Ok_0.0 != entry.0
                    };
                assert(read(before[i]) == Ok::<(i32, i64), StopView>((entry.0, sofar[entry.0])));
                assert(before[i] == rows[i]);
                assert(i32_cell(rows[i], 0) == i32_cell(rows[last], 0));
            }
        }
        assert(by_id == sofar.insert(entry.0, entry.1));
        assert(by_id.dom() =~= sofar.dom().insert(entry.0));
        lemma_sum_of_others(by_id, entry.0);
        assert(by_id.remove(entry.0) =~= sofar);
    }
}

/// Where no two collections have one name, the sum by name is the sum by id.
pub proof fn law_names_keep_the_sum(
    by_id: Map<i32, i64>,
    names: Map<i32, Seq<char>>,
    by_name: Map<Seq<char>, i64>,
)
    requires
        by_id.dom().finite(),
        is_renaming(by_id, names, by_name),
        distinct_names(by_id, names),
    ensures
        by_name.dom().finite(),
        sum(by_name) == sum(by_id),
    decreases by_id.dom().len(),
{
    law_distinct_names_keep_all_values(by_id, names, by_name);
    if by_id.dom().len() == 0 {
        assert(by_id.dom() =~= Set::<i32>::empty());
        assert forall|name: Seq<char>| !by_name.contains_key(name) by {
            if by_name.contains_key(name) {
                let id = choose|id: i32| #[trigger] by_id.contains_key(id) && names[id] == name;
                assert(by_id.contains_key(id));
            }
        }
        assert(by_name.dom() =~= Set::<Seq<char>>::empty());
    } else {
        let id = by_id.dom().choose();
        let name = names[id];
        assert(by_id.contains_key(id));
        let fewer = by_id.remove(id);
        let fewer_names = by_name.remove(name);
        assert(fewer.dom() =~= by_id.dom().remove(id));
        assert forall|x: i32| #[trigger] fewer.contains_key(x) implies fewer_names.contains_key(
            names[x],
        ) by {
            assert(by_id.contains_key(x));
        }
        assert forall|n: Seq<char>| #[trigger] fewer_names.contains_key(n) implies exists|x: i32|
            #[trigger]
            fewer.contains_key(x) && names[x] == n && fewer_names[n] == fewer[x] by {
            assert(by_name.contains_key(n));
            let x = choose|x: i32| #[trigger]
                by_id.contains_key(x) && names[x] == n && by_name[n] == by_id[x];
            assert(fewer.contains_key(x));
        }
        assert forall|a: i32, b: i32|
            #![trigger fewer.contains_key(a), fewer.contains_key(b)]
            fewer.contains_key(a) && fewer.contains_key(b) && names[a] == names[b] implies a
            == b by {
            assert(by_id.contains_key(a) && by_id.contains_key(b));
        }
        law_names_keep_the_sum(fewer, names, fewer_names);
        assert(by_name.dom() =~= fewer_names.dom().insert(name));
        lemma_sum_of_others(by_id, id);
        lemma_sum_of_others(by_name, name);
    }
}

/// What a query for the sum gives of rows of a collection id and a number: the sum, and no row
/// where there are none.
pub open spec fn sum_row(rows: Seq<RowView>, reply: Option<RowView>) -> bool {
    if rows.len() == 0 {
        reply is None
    } else {
        reply matches Some(row) && (i64_cell(row, 0) matches Ok(usage) && usage == total(rows))
    }
}

/// How much the storage holds is the sum of what its collections hold as `first` got it, and 0
/// where it has none: by collection id, and by name where no two collections have one name.
pub proof fn law_storage_usage_is_the_sum(
    first: DbView,
    db: DbView,
    user: u32,
    result: ResultSetView,
    by_id: Map<i32, i64>,
    names: Map<i32, Seq<char>>,
    by_name: Map<Seq<char>, i64>,
    reply: Option<RowView>,
)
    requires
        first.user_sql(
            "SELECT collection, SUM(LENGTH(payload)) FROM bso WHERE userid=@userid AND ttl > CURRENT_TIMESTAMP() GROUP BY collection"@,
            user,
        ).out == Ok::<ResultSetView, StopView>(result),
        first.get_collection_usage(user).out == Ok::<
            (Map<i32, i64>, Map<i32, Seq<char>>),
            StopView,
        >((by_id, names)),
        distinct_collections(result.rows),
        is_renaming(by_id, names, by_name),
        db.storage_usage_row(user).out == Ok::<Option<RowView>, StopView>(reply),
        sum_row(result.rows, reply),
        total(result.rows) >= 0,
    ensures
        db.get_storage_usage(user).out matches Ok(usage) && usage == sum(by_id) && (distinct_names(
            by_id,
            names,
        ) ==> usage == sum(by_name)),
{
    lemma_collected_sum(result.rows, by_id);
    if distinct_names(by_id, names) {
        law_names_keep_the_sum(by_id, names, by_name);
    }
}

} // verus!
