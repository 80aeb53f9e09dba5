//! Which statements give the figures of a user's collections, and how the collections come by
//! their names.

use vstd::prelude::*;

use crate::conn::{ResultSetView, RowView};
use crate::db::{DbView, Step};
use crate::decimal::{natural, read_i32, read_i64};
use crate::error::{ErrorView, StopView};
use crate::laws::law_collected_rows;
use crate::names::{collect, number_row, stamp_row};
use crate::statements::{asked, heard, law_statement, time_of};

verus! {

/// A row of an id and a text.
pub open spec fn has_id(row: RowView) -> bool {
    row.len() >= 2 && read_i32(row[0]) is Ok
}

/// A row that gives a name to that id.
pub open spec fn gives(row: RowView, id: i32, name: Seq<char>) -> bool {
    row.len() >= 2 && read_i32(row[0]) == Ok::<i32, Seq<char>>(id) && row[1] == name
}

/// Whether a row gives that id a name.
pub open spec fn named(rows: Seq<RowView>, id: i32) -> bool {
    exists|i: int|
        0 <= i < rows.len() && (#[trigger] read_i32(rows[i][0])) == Ok::<i32, Seq<char>>(id)
}

/// That row is the last that gives the id a name, which is that one.
pub open spec fn gives_last(rows: Seq<RowView>, i: int, id: i32, name: Seq<char>) -> bool {
    &&& 0 <= i < rows.len()
    &&& gives(rows[i], id, name)
    &&& forall|j: int|
        #![trigger rows[j]]
        i < j < rows.len() ==> read_i32(rows[j][0]) != Ok::<i32, Seq<char>>(id)
}

/// The name that the rows give to an id is the one in the last row of that id.
pub open spec fn name_by(rows: Seq<RowView>, id: i32, name: Seq<char>) -> bool {
    exists|i: int| #[trigger] gives_last(rows, i, id, name)
}

proof fn lemma_one_more(rows: Seq<RowView>, id: i32, name: Seq<char>)
    requires
        rows.len() > 0,
        has_id(rows[0]),
    ensures
        named(rows, id) <==> read_i32(rows[0][0]) == Ok::<i32, Seq<char>>(id) || named(
            rows.drop_first(),
            id,
        ),
        name_by(rows.drop_first(), id, name) ==> name_by(rows, id, name),
        !named(rows.drop_first(), id) && gives(rows[0], id, name) ==> name_by(rows, id, name),
{
    let rest = rows.drop_first();
    if named(rest, id) {
        let i = choose|i: int|
            0 <= i < rest.len() && (#[trigger] read_i32(rest[i][0])) == Ok::<i32, Seq<char>>(id);
        assert(read_i32(rows[i + 1][0]) == Ok::<i32, Seq<char>>(id));
    } else if named(rows, id) {
        let i = choose|i: int|
            0 <= i < rows.len() && (#[trigger] read_i32(rows[i][0])) == Ok::<i32, Seq<char>>(id);
        if i > 0 {
            assert(read_i32(rest[i - 1][0]) == Ok::<i32, Seq<char>>(id));
        }
    }
    if read_i32(rows[0][0]) == Ok::<i32, Seq<char>>(id) {
        assert(named(rows, id));
    }
    if name_by(rest, id, name) {
        let i = choose|i: int| #[trigger] gives_last(rest, i, id, name);
        assert forall|j: int| #![trigger rows[j]] i + 1 < j < rows.len() implies read_i32(
            rows[j][0],
        ) != Ok::<i32, Seq<char>>(id) by {
            assert(rest[j - 1] == rows[j]);
        }
        assert(gives_last(rows, i + 1, id, name));
    }
    if !named(rest, id) && gives(rows[0], id, name) {
        assert forall|j: int| #![trigger rows[j]] 0 < j < rows.len() implies read_i32(rows[j][0])
            != Ok::<i32, Seq<char>>(id) by {
            assert(rest[j - 1] == rows[j]);
            assert(read_i32(rest[j - 1][0]) == read_i32(rows[j][0]));
        }
        assert(gives_last(rows, 0, id, name));
    }
}

/// What is known of an id once the rows were read: of one that was not in the cache its name in
/// the rows, and of the others what was known before.
spec fn learned_one(
    db: DbView,
    uncached: Set<i32>,
    names: Map<i32, Seq<char>>,
    rows: Seq<RowView>,
    after: DbView,
    learned: Map<i32, Seq<char>>,
    id: i32,
) -> bool {
    if uncached.contains(id) && named(rows, id) {
        &&& name_by(rows, id, learned[id])
        &&& after.cache.names.contains_key(id)
        &&& after.cache.names[id] == learned[id]
        &&& after.cache.ids.contains_key(learned[id])
    } else {
        &&& learned[id] == names[id]
        &&& after.cache.names.contains_key(id) == db.cache.names.contains_key(id)
        &&& after.cache.names[id] == db.cache.names[id]
    }
}

proof fn lemma_learned(
    db: DbView,
    uncached: Set<i32>,
    names: Map<i32, Seq<char>>,
    rows: Seq<RowView>,
)
    requires
        forall|i: int| 0 <= i < rows.len() ==> has_id(#[trigger] rows[i]),
    ensures
        ({
            let after = db.learn_names(uncached, names, rows);
            &&& after.db == (DbView { cache: after.db.cache, ..db })
            &&& forall|name: Seq<char>| #[trigger]
                db.cache.ids.contains_key(name) ==> after.db.cache.ids.contains_key(name)
            &&& after.out matches Ok(learned) && {
                &&& forall|id: i32|
                    #![trigger learned.contains_key(id)]
                    learned.contains_key(id) <==> names.contains_key(id) || (uncached.contains(id)
                        && named(rows, id))
                &&& forall|id: i32| #[trigger]
                    learned_one(db, uncached, names, rows, after.db, learned, id)
            }
        }),
    decreases rows.len(),
{
    if rows.len() > 0 {
        assert(has_id(rows[0]));
        let rest = rows.drop_first();
        let id = read_i32(rows[0][0])->Ok_0;
        let name = rows[0][1];
        assert forall|i: int| 0 <= i < rest.len() implies has_id(#[trigger] rest[i]) by {
            assert(rest[i] == rows[i + 1]);
        }
        let (next, more) = if uncached.contains(id) {
            (db.cache_put(id, name), names.insert(id, name))
        } else {
            (db, names)
        };
        lemma_learned(next, uncached, more, rest);
        let after = db.learn_names(uncached, names, rows);
        assert(after == next.learn_names(uncached, more, rest));
        let learned = after.out->Ok_0;
        assert forall|n: Seq<char>| #[trigger] db.cache.ids.contains_key(n) implies
            after.db.cache.ids.contains_key(n) by {
            assert(next.cache.ids.contains_key(n));
        }
        assert forall|x: i32|
            #![trigger learned.contains_key(x)]
            learned.contains_key(x) <==> names.contains_key(x) || (uncached.contains(x) && named(
                rows,
                x,
            )) by {
            lemma_one_more(rows, x, learned[x]);
        }
        assert forall|x: i32| #[trigger]
            learned_one(db, uncached, names, rows, after.db, learned, x) by {
            lemma_one_more(rows, x, learned[x]);
            assert(x == id && uncached.contains(id) ==> next.cache.ids.contains_key(name));
            assert(learned_one(next, uncached, more, rest, after.db, learned, x));
        }
    }
}

proof fn lemma_not_learned(
    db: DbView,
    uncached: Set<i32>,
    names: Map<i32, Seq<char>>,
    rows: Seq<RowView>,
    bad: int,
)
    requires
        0 <= bad < rows.len(),
        !has_id(rows[bad]),
    ensures
        db.learn_names(uncached, names, rows).db.conn == db.conn,
        db.learn_names(uncached, names, rows).out == Err::<Map<i32, Seq<char>>, StopView>(
            StopView::Fault,
        ),
    decreases rows.len(),
{
    let rest = rows.drop_first();
    if has_id(rows[0]) {
        let id = read_i32(rows[0][0])->Ok_0;
        let name = rows[0][1];
        assert(rest[bad - 1] == rows[bad]);
        if uncached.contains(id) {
            lemma_not_learned(
                db.cache_put(id, name),
                uncached,
                names.insert(id, name),
                rest,
                bad - 1,
            );
        } else {
            lemma_not_learned(db, uncached, names, rest, bad - 1);
        }
    }
}

/// The names of collections that are all in the cache are those in the cache, and nothing is
/// sent.
pub proof fn law_cached_names(db: DbView, ids: Set<i32>)
    requires
        forall|id: i32| #[trigger] ids.contains(id) ==> db.cache.names.contains_key(id),
    ensures
        db.load_collection_names(ids).db == db,
        db.load_collection_names(ids).out matches Ok(names) && {
            &&& forall|id: i32| #[trigger] names.contains_key(id) <==> ids.contains(id)
            &&& forall|id: i32| #[trigger]
                ids.contains(id) ==> names[id] == db.cache.names[id]
        },
{
    assert(ids.difference(db.cache.names.dom()) =~= Set::<i32>::empty());
}

/// Where the name of a collection is not in the cache, all names are asked for by one statement:
/// a collection has the name in the cache, or else the one that its last row gives it, which is
/// in the cache from then on. One that has neither has no name.
pub proof fn law_missing_names(db: DbView, ids: Set<i32>, missing: i32, result: ResultSetView)
    requires
        ids.contains(missing),
        !db.cache.names.contains_key(missing),
        heard(db) == Some(result),
        forall|i: int| 0 <= i < result.rows.len() ==> has_id(#[trigger] result.rows[i]),
    ensures
        db.load_collection_names(ids).db == (DbView {
            cache: db.load_collection_names(ids).db.cache,
            ..asked(
                db,
                "SELECT collectionid, name FROM collections"@,
                Map::empty(),
                Map::empty(),
            )
        }),
        db.load_collection_names(ids).out matches Ok(names) && {
            &&& forall|id: i32| #[trigger]
                names.contains_key(id) <==> ids.contains(id) && (db.cache.names.contains_key(id)
                    || named(result.rows, id))
            &&& forall|id: i32|
                #![trigger names[id]]
                names.contains_key(id) ==> {
                    &&& db.cache.names.contains_key(id) ==> names[id] == db.cache.names[id]
                    &&& !db.cache.names.contains_key(id) ==> name_by(result.rows, id, names[id])
                        && db.load_collection_names(ids).db.cache.ids.contains_key(names[id])
                    &&& db.load_collection_names(ids).db.cache.names.contains_key(id)
                    &&& db.load_collection_names(ids).db.cache.names[id] == names[id]
                }
        },
{
    let uncached = ids.difference(db.cache.names.dom());
    assert(uncached.contains(missing));
    let sql = "SELECT collectionid, name FROM collections"@;
    law_statement(db, sql, Map::empty(), Map::empty(), result);
    lemma_learned(
        asked(db, sql, Map::empty(), Map::empty()),
        uncached,
        db.cache.names.restrict(ids),
        result.rows,
    );
    let after = db.load_collection_names(ids);
    let names = after.out->Ok_0;
    assert forall|id: i32|
        #![trigger names[id]]
        names.contains_key(id) implies {
        &&& db.cache.names.contains_key(id) ==> names[id] == db.cache.names[id]
        &&& !db.cache.names.contains_key(id) ==> name_by(result.rows, id, names[id])
            && after.db.cache.ids.contains_key(names[id])
        &&& after.db.cache.names.contains_key(id)
        &&& after.db.cache.names[id] == names[id]
    } by {
        assert(learned_one(
            asked(db, sql, Map::empty(), Map::empty()),
            uncached,
            db.cache.names.restrict(ids),
            result.rows,
            after.db,
            names,
            id,
        ));
    }
}

/// Names cannot be looked up where a row has no id or no name.
pub proof fn law_illegible_names(
    db: DbView,
    ids: Set<i32>,
    missing: i32,
    result: ResultSetView,
    i: int,
)
    requires
        ids.contains(missing),
        !db.cache.names.contains_key(missing),
        heard(db) == Some(result),
        0 <= i < result.rows.len(),
        !has_id(result.rows[i]),
    ensures
        db.load_collection_names(ids).db.conn == asked(
            db,
            "SELECT collectionid, name FROM collections"@,
            Map::empty(),
            Map::empty(),
        ).conn,
        db.load_collection_names(ids).out == Err::<Map<i32, Seq<char>>, StopView>(StopView::Fault),
{
    let uncached = ids.difference(db.cache.names.dom());
    assert(uncached.contains(missing));
    let sql = "SELECT collectionid, name FROM collections"@;
    law_statement(db, sql, Map::empty(), Map::empty(), result);
    lemma_not_learned(
        asked(db, sql, Map::empty(), Map::empty()),
        uncached,
        db.cache.names.restrict(ids),
        result.rows,
        i,
    );
}

/// The figures by id are those of the rows: an id has the value of its last row, and there is no
/// id without a row.
pub open spec fn of_rows<V>(
    by_id: Map<i32, V>,
    rows: Seq<RowView>,
    value: spec_fn(Seq<char>) -> Result<V, StopView>,
) -> bool {
    &&& forall|i: int|
        #![trigger rows[i]]
        0 <= i < rows.len() ==> {
            &&& has_id(rows[i])
            &&& value(rows[i][1]) is Ok
            &&& by_id.contains_key(read_i32(rows[i][0])->Ok_0)
        }
    &&& forall|id: i32| #[trigger]
        by_id.contains_key(id) ==> exists|i: int|
            {
                &&& 0 <= i < rows.len()
                &&& gives(#[trigger] rows[i], id, rows[i][1])
                &&& value(rows[i][1]) == Ok::<V, StopView>(by_id[id])
                &&& forall|j: int| #![trigger rows[j]]
                    i < j < rows.len() ==> read_i32(rows[j][0]) != Ok::<i32, Seq<char>>(id)
            }
}

/// The row is not one of an id and a value.
pub open spec fn fails<V>(row: RowView, value: spec_fn(Seq<char>) -> Result<V, StopView>) -> bool {
    !has_id(row) || value(row[1]) is Err
}

/// Why the row is not one of an id and a value.
pub open spec fn failure<V>(
    row: RowView,
    value: spec_fn(Seq<char>) -> Result<V, StopView>,
) -> StopView {
    if row.len() == 0 {
        StopView::Fault
    } else {
        match read_i32(row[0]) {
            Err(error) => StopView::Failed(ErrorView::Integrity(error)),
            Ok(_) => if row.len() == 1 {
                StopView::Fault
            } else {
                value(row[1])->Err_0
            },
        }
    }
}

/// A row of an id and a value is read as such.
spec fn reads<V>(
    read: spec_fn(RowView) -> Result<(i32, V), StopView>,
    value: spec_fn(Seq<char>) -> Result<V, StopView>,
) -> bool {
    forall|row: RowView|
        #![trigger read(row)]
        match read(row) {
            Ok(entry) => row.len() >= 2 && read_i32(row[0]) == Ok::<i32, Seq<char>>(entry.0)
                && value(row[1]) == Ok::<V, StopView>(entry.1),
            Err(stop) => fails(row, value) && stop == failure(row, value),
        }
}

/// Whether all rows can be read.
pub open spec fn all_read<V>(
    rows: Seq<RowView>,
    value: spec_fn(Seq<char>) -> Result<V, StopView>,
) -> bool {
    forall|i: int|
        #![trigger rows[i]]
        0 <= i < rows.len() ==> has_id(rows[i]) && value(rows[i][1]) is Ok
}

proof fn lemma_collected<V>(
    rows: Seq<RowView>,
    read: spec_fn(RowView) -> Result<(i32, V), StopView>,
    value: spec_fn(Seq<char>) -> Result<V, StopView>,
)
    requires
        reads(read, value),
    ensures
        collect(rows, read) is Ok <==> all_read(rows, value),
        collect(rows, read) matches Ok(by_id) ==> of_rows(by_id, rows, value),
{
    if let Ok(by_id) = collect(rows, read) {
        law_collected_rows(rows, read, by_id);
        assert forall|i: int| #![trigger rows[i]] 0 <= i < rows.len() implies {
            &&& has_id(rows[i])
            &&& value(rows[i][1]) is Ok
            &&& by_id.contains_key(read_i32(rows[i][0])->Ok_0)
        } by {
            assert(read(rows[i]) is Ok);
        }
        assert forall|id: i32| #[trigger] by_id.contains_key(id) implies exists|i: int|
            {
                &&& 0 <= i < rows.len()
                &&& gives(#[trigger] rows[i], id, rows[i][1])
                &&& value(rows[i][1]) == Ok::<V, StopView>(by_id[id])
                &&& forall|j: int| #![trigger rows[j]]
                    i < j < rows.len() ==> read_i32(rows[j][0]) != Ok::<i32, Seq<char>>(id)
            } by {
            let i = choose|i: int|
                {
                    &&& 0 <= i < rows.len()
                    &&& #[trigger] read(rows[i]) == Ok::<(i32, V), StopView>((id, by_id[id]))
                    &&& forall|j: int|
                        i < j < rows.len() ==> (#[trigger] read(rows[j]))->Ok_0.0 != id
                };
            assert(gives(rows[i], id, rows[i][1]));
            assert forall|j: int| #![trigger rows[j]] i < j < rows.len() implies read_i32(
                rows[j][0],
            ) != Ok::<i32, Seq<char>>(id) by {
                assert(read(rows[j])->Ok_0.0 != id);
                assert(read(rows[j]) is Ok);
            }
        }
    }
    lemma_collected_all(rows, read, value);
}

proof fn lemma_collected_all<V>(
    rows: Seq<RowView>,
    read: spec_fn(RowView) -> Result<(i32, V), StopView>,
    value: spec_fn(Seq<char>) -> Result<V, StopView>,
)
    requires
        reads(read, value),
    ensures
        all_read(rows, value) ==> collect(rows, read) is Ok,
    decreases rows.len(),
{
    if rows.len() > 0 && all_read(rows, value) {
        let before = rows.drop_last();
        assert forall|i: int| #![trigger before[i]] 0 <= i < before.len() implies has_id(before[i])
            && value(before[i][1]) is Ok by {
            assert(before[i] == rows[i]);
        }
        lemma_collected_all(before, read, value);
        assert(has_id(rows[rows.len() - 1]));
        assert(read(rows.last()) is Ok);
    }
}

proof fn lemma_collected_to<V>(
    rows: Seq<RowView>,
    read: spec_fn(RowView) -> Result<(i32, V), StopView>,
    value: spec_fn(Seq<char>) -> Result<V, StopView>,
    i: int,
)
    requires
        reads(read, value),
        0 <= i < rows.len(),
        fails(rows[i], value),
        all_read(rows.take(i), value),
    ensures
        collect(rows, read) == Err::<Map<i32, V>, StopView>(failure(rows[i], value)),
    decreases rows.len(),
{
    let before = rows.drop_last();
    if i == rows.len() - 1 {
        assert(before =~= rows.take(i));
        lemma_collected_all(before, read, value);
        assert(read(rows.last()) is Err);
    } else {
        assert(before.take(i) =~= rows.take(i));
        lemma_collected_to(before, read, value, i);
    }
}

/// The number in a cell.
pub open spec fn number_in(text: Seq<char>) -> Result<i64, StopView> {
    match read_i64(text) {
        Ok(number) => Ok(number),
        Err(error) => Err(StopView::Failed(ErrorView::Integrity(error))),
    }
}

/// Figures by id come out with a name for every id, those that looking the names up gives. An id
/// without a name is an error, and so is the first row that cannot be read.
pub open spec fn comes_named<V>(
    asked: DbView,
    rows: Seq<RowView>,
    value: spec_fn(Seq<char>) -> Result<V, StopView>,
    after: Step<(Map<i32, V>, Map<i32, Seq<char>>)>,
) -> bool {
    &&& forall|i: int|
        #![trigger rows[i]]
        0 <= i < rows.len() && fails(rows[i], value) && all_read(rows.take(i), value) ==> after
            == (Step {
            db: asked,
            out: Err::<(Map<i32, V>, Map<i32, Seq<char>>), StopView>(failure(rows[i], value)),
        })
    &&& all_read(rows, value) ==> exists|by_id: Map<i32, V>|
        {
            let loaded = asked.load_collection_names(by_id.dom());
            &&& #[trigger] of_rows(by_id, rows, value)
            &&& after.db == loaded.db
            &&& match loaded.out {
                Ok(names) => if forall|id: i32| #[trigger]
                    by_id.contains_key(id) ==> names.contains_key(id) {
                    after.out == Ok::<_, StopView>((by_id, names))
                } else {
                    after.out == Err::<(Map<i32, V>, Map<i32, Seq<char>>), StopView>(
                        StopView::Failed(ErrorView::Internal("load_collection_names get"@)),
                    )
                },
                Err(stop) => after.out == Err::<(Map<i32, V>, Map<i32, Seq<char>>), StopView>(
                    stop,
                ),
            }
        }
}

proof fn lemma_by_collection<V>(
    db: DbView,
    sql: Seq<char>,
    user: u32,
    read: spec_fn(RowView) -> Result<(i32, V), StopView>,
    value: spec_fn(Seq<char>) -> Result<V, StopView>,
    result: ResultSetView,
)
    requires
        heard(db) == Some(result),
        reads(read, value),
    ensures
        comes_named(
            asked(db, sql, Map::empty().insert("userid"@, natural(user as nat)), Map::empty()),
            result.rows,
            value,
            db.by_collection(sql, user, read),
        ),
{
    let params = Map::empty().insert("userid"@, natural(user as nat));
    law_statement(db, sql, params, Map::empty(), result);
    lemma_collected(result.rows, read, value);
    let rows = result.rows;
    assert forall|i: int|
        #![trigger rows[i]]
        0 <= i < rows.len() && fails(rows[i], value) && all_read(
            rows.take(i),
            value,
        ) implies collect(rows, read) == Err::<Map<i32, V>, StopView>(failure(rows[i], value)) by {
        lemma_collected_to(rows, read, value, i);
    }
    if let Ok(by_id) = collect(result.rows, read) {
        assert(of_rows(by_id, result.rows, value));
        let loaded = asked(db, sql, params, Map::empty()).load_collection_names(by_id.dom());
        if let Ok(names) = loaded.out {
            if forall|id: i32| #[trigger] by_id.contains_key(id) ==> names.contains_key(id) {
                assert(by_id.dom().subset_of(names.dom()));
            } else {
                let id = choose|id: i32| #[trigger]
                    by_id.contains_key(id) && !names.contains_key(id);
                assert(by_id.dom().contains(id) && !names.dom().contains(id));
            }
        }
    }
}

/// When the collections of a user were modified is asked for by one statement, which names that
/// user; the times are those in the rows.
pub proof fn law_collection_times(db: DbView, user: u32, result: ResultSetView)
    requires
        heard(db) == Some(result),
    ensures
        comes_named(
            asked(
                db,
                "SELECT collection, last_modified FROM user_collections WHERE userid=@userid"@,
                Map::empty().insert("userid"@, natural(user as nat)),
                Map::empty(),
            ),
            result.rows,
            |text: Seq<char>| time_of(text),
            db.get_collection_timestamps(user),
        ),
{
    lemma_by_collection(
        db,
        "SELECT collection, last_modified FROM user_collections WHERE userid=@userid"@,
        user,
        |row: RowView| stamp_row(row),
        |text: Seq<char>| time_of(text),
        result,
    );
}

/// How many objects the collections of a user have is asked for by one statement, which names
/// that user; the numbers are those in the rows.
pub proof fn law_collection_counts(db: DbView, user: u32, result: ResultSetView)
    requires
        heard(db) == Some(result),
    ensures
        comes_named(
            asked(
                db,
                "SELECT collection, COUNT(collection) FROM bso WHERE userid=@userid AND ttl > CURRENT_TIMESTAMP() GROUP BY collection"@,
                Map::empty().insert("userid"@, natural(user as nat)),
                Map::empty(),
            ),
            result.rows,
            |text: Seq<char>| number_in(text),
            db.get_collection_counts(user),
        ),
{
    lemma_by_collection(
        db,
        "SELECT collection, COUNT(collection) FROM bso WHERE userid=@userid AND ttl > CURRENT_TIMESTAMP() GROUP BY collection"@,
        user,
        |row: RowView| number_row(row),
        |text: Seq<char>| number_in(text),
        result,
    );
}

/// How much payload the collections of a user hold is asked for by one statement, which names
/// that user; the numbers are those in the rows.
pub proof fn law_collection_usage(db: DbView, user: u32, result: ResultSetView)
    requires
        heard(db) == Some(result),
    ensures
        comes_named(
            asked(
                db,
                "SELECT collection, SUM(LENGTH(payload)) FROM bso WHERE userid=@userid AND ttl > CURRENT_TIMESTAMP() GROUP BY collection"@,
                Map::empty().insert("userid"@, natural(user as nat)),
                Map::empty(),
            ),
            result.rows,
            |text: Seq<char>| number_in(text),
            db.get_collection_usage(user),
        ),
{
    lemma_by_collection(
        db,
        "SELECT collection, SUM(LENGTH(payload)) FROM bso WHERE userid=@userid AND ttl > CURRENT_TIMESTAMP() GROUP BY collection"@,
        user,
        |row: RowView| number_row(row),
        |text: Seq<char>| number_in(text),
        result,
    );
}

} // verus!
