//! What the operations promise to whoever calls several of them.

use vstd::prelude::*;

use crate::conn::{RequestView, RowView, TransactionMode};
use crate::db::{CollectionLock, DbView, Step};
use crate::decimal::decimal;
use crate::error::{ErrorView, StopView};
use crate::names::{collect, is_renaming};
use crate::rows::{cell, i32_cell, must, stamp_cell};
use crate::write::PutView;

verus! {

/// A transaction is open once one was asked for: committing and rolling back never lack one.
pub proof fn law_transaction_is_open(db: DbView)
    ensures
        db.get_transaction().out matches Ok(transaction) ==> transaction is Some
            && db.get_transaction().db.transaction == transaction,
        db.commit().out != Err::<(), StopView>(
            StopView::Failed(ErrorView::Internal("No transaction to commit"@)),
        ),
        db.rollback().out != Err::<(), StopView>(
            StopView::Failed(ErrorView::Internal("No transaction to rollback"@)),
        ),
{
}

/// Where a transaction is open, a commit or a rollback is one request, which names it.
pub proof fn law_one_request_ends_a_transaction(db: DbView, id: Option<Seq<char>>)
    requires
        db.transaction == Some(id),
    ensures
        db.commit().db.conn.sent == (if db.conn.use_test_transactions {
            db.conn.sent
        } else {
            db.conn.sent.push(RequestView::Commit(id))
        }),
        db.rollback().db.conn.sent == db.conn.sent.push(RequestView::Rollback(id)),
{
}

/// Test transactions are never committed.
pub proof fn law_test_transactions_are_not_committed(db: DbView)
    requires
        db.conn.use_test_transactions,
    ensures
        db.commit() == db.done(()),
{
}

/// In an open transaction a statement is made without a request of its own, it runs in that
/// transaction, and the next statement has another number.
pub proof fn law_statements_run_in_the_open_transaction(db: DbView, sql: Seq<char>)
    requires
        db.transaction is Some,
        db.statements < u64::MAX,
    ensures
        db.sql(sql).out matches Ok(request) && request.transaction == db.transaction && request.sql
            == sql,
        db.sql(sql).db == (DbView { statements: db.statements + 1, ..db }),
{
}

/// A collection id that was looked up is known: looking it up again sends nothing.
pub proof fn law_collection_id_is_cached(db: DbView, name: Seq<char>, id: i32)
    requires
        db.get_collection_id(name).out == Ok::<i32, StopView>(id),
    ensures
        db.get_collection_id(name).db.get_collection_id(name)
            == db.get_collection_id(name).db.done(id),
{
}

/// A collection that was looked up or created is known under the id that came out, whichever
/// way it is asked for.
pub proof fn law_created_collection_is_cached(db: DbView, name: Seq<char>, id: i32)
    requires
        db.get_or_create_collection_id(name).out == Ok::<i32, StopView>(id),
    ensures
        ({
            let after = db.get_or_create_collection_id(name).db;
            &&& after.get_collection_id(name) == after.done(id)
            &&& after.get_or_create_collection_id(name) == after.done(id)
        }),
{
}

/// A lock that was taken is held: for reading under the collection's id, or under 0 where there
/// is no such collection.
pub proof fn law_read_lock_is_held(db: DbView, user: u32, name: Seq<char>)
    requires
        db.lock_for_read(user, name).out is Ok,
    ensures
        ({
            let found = db.get_collection_id(name);
            let id = if found.out is Ok {
                found.out->Ok_0
            } else {
                0
            };
            let after = db.lock_for_read(user, name).db;
            &&& found.out is Ok || found.out == Err::<i32, StopView>(
                StopView::Failed(ErrorView::CollectionNotFound),
            )
            &&& after.locks.contains_key((user, id))
            &&& !db.locks.contains_key((user, id)) ==> after.locks[(user, id)]
                == CollectionLock::Read
            &&& db.locks.contains_key((user, id)) ==> after.locks == db.locks
        }),
{
}

/// A lock for writing that was taken is held under the collection's id, and the collection
/// exists.
pub proof fn law_write_lock_is_held(db: DbView, user: u32, name: Seq<char>)
    requires
        db.lock_for_write(user, name).out is Ok,
    ensures
        ({
            let after = db.lock_for_write(user, name).db;
            &&& after.cache.ids.contains_key(name)
            &&& after.locks.contains_key((user, after.cache.ids[name]))
            &&& after.locks[(user, after.cache.ids[name])] == CollectionLock::Write
        }),
{
}

/// A collection that is locked, for reading or for writing, is locked for reading without a
/// request.
pub proof fn law_locked_is_locked_for_reading(db: DbView, user: u32, name: Seq<char>)
    requires
        db.cache.ids.contains_key(name),
        db.locks.contains_key((user, db.cache.ids[name])),
    ensures
        db.lock_for_read(user, name) == db.done(()),
{
}

/// A lock for reading is not made one for writing: that is refused, and nothing is sent.
pub proof fn law_no_escalation(db: DbView, user: u32, name: Seq<char>)
    requires
        db.cache.ids.contains_key(name),
        db.locks.contains_key((user, db.cache.ids[name])),
        db.locks[(user, db.cache.ids[name])] is Read,
    ensures
        db.lock_for_write(user, name) == db.fail::<()>(
            ErrorView::Internal("Can't escalate read-lock to write-lock"@),
        ),
{
}

/// After a lock for reading on a collection that was not locked, one for writing is refused
/// and another for reading is granted, both without a request.
pub proof fn law_locks_after_read_lock(db: DbView, user: u32, name: Seq<char>)
    requires
        db.lock_for_read(user, name).out is Ok,
        db.get_collection_id(name).out is Ok,
        !db.locks.contains_key((user, db.get_collection_id(name).out->Ok_0)),
    ensures
        ({
            let after = db.lock_for_read(user, name).db;
            &&& after.lock_for_read(user, name) == after.done(())
            &&& after.lock_for_write(user, name) == after.fail::<()>(
                ErrorView::Internal("Can't escalate read-lock to write-lock"@),
            )
        }),
{
    let found = db.get_collection_id(name);
    let id = found.out->Ok_0;
    let after = db.lock_for_read(user, name).db;
    assert(found.db.cache.ids[name] == id);
    assert(after.cache == found.db.cache);
    law_locked_is_locked_for_reading(after, user, name);
    law_no_escalation(after, user, name);
}

/// After a lock for writing, one for reading is granted without a request.
pub proof fn law_locks_after_write_lock(db: DbView, user: u32, name: Seq<char>)
    requires
        db.lock_for_write(user, name).out is Ok,
    ensures
        ({
            let after = db.lock_for_write(user, name).db;
            after.lock_for_read(user, name) == after.done(())
        }),
{
    law_write_lock_is_held(db, user, name);
    law_locked_is_locked_for_reading(db.lock_for_write(user, name).db, user, name);
}

/// To lock a collection for reading that does not exist begins a transaction for reading, and
/// the collection goes on not to exist: none is created and none is cached.
pub proof fn law_missing_collection_stays_missing(db: DbView, user: u32, name: Seq<char>)
    requires
        db.get_collection_id(name).out == Err::<i32, StopView>(
            StopView::Failed(ErrorView::CollectionNotFound),
        ),
        !db.locks.contains_key((user, 0i32)),
    ensures
        ({
            let found = db.get_collection_id(name).db;
            let after = db.lock_for_read(user, name).db;
            &&& after.cache == db.cache
            &&& found.conn.sent.is_prefix_of(after.conn.sent)
            &&& after.conn.sent.len() <= found.conn.sent.len() + 2
            &&& after.conn.sent.len() > found.conn.sent.len()
            &&& after.conn.sent[found.conn.sent.len() as int] == RequestView::Begin(
                TransactionMode::ReadOnly,
            )
        }),
{
}

/// A collection that is created has one id, 100 at least: it is stored, cached and given back.
pub proof fn law_created_collection_has_one_id(db: DbView, name: Seq<char>, id: i32)
    requires
        db.create_collection(name).out == Ok::<i32, StopView>(id),
    ensures
        ({
            let after = db.create_collection(name).db;
            &&& id >= 100
            &&& after.cache == db.cache.put(id, name)
            &&& after.cache.ids[name] == id
            &&& after.cache.names[id] == name
            &&& after.conn.sent.last() matches RequestView::Execute(sent) && {
                &&& sent.sql
                    == "INSERT INTO collections (collectionid, name) VALUES (@collectionid, @name)"@
                &&& sent.params["collectionid"@] == decimal(id as int)
                &&& sent.params["name"@] == name
            }
        }),
{
    reveal_strlit("collectionid");
    reveal_strlit("name");
    assert("collectionid"@.len() != "name"@.len());
}

/// The id of a collection that is created is greater than the greatest there was.
pub proof fn law_created_id_is_new(db: DbView, name: Seq<char>, row: RowView, max: i32, id: i32)
    requires
        ({
            let asked = db.sql("SELECT COALESCE(MAX(collectionid), 1) from collections"@);
            &&& asked.out matches Ok(request) && (asked.db.execute(request).out matches Ok(result)
                && result.rows == seq![row])
        }),
        i32_cell(row, 0) == Ok::<i32, StopView>(max),
        db.create_collection(name).out == Ok::<i32, StopView>(id),
    ensures
        id > max,
        id == (if max + 1 < 100 {
            100
        } else {
            max + 1
        }),
{
}

/// After a lock for reading on a collection that was not locked, the session answers with when
/// the lock's row says the collection was last modified, without a request.
pub proof fn law_time_after_read_lock(
    db: DbView,
    user: u32,
    name: Seq<char>,
    id: i32,
    row: RowView,
)
    requires
        db.lock_for_read(user, name).out is Ok,
        db.get_collection_id(name).out == Ok::<i32, StopView>(id),
        !db.locks.contains_key((user, id)),
        db.get_collection_id(name).db.lock_row(user, id, CollectionLock::Read).out == Ok::<
            Option<RowView>,
            StopView,
        >(Some(row)),
    ensures
        ({
            let after = db.lock_for_read(user, name).db;
            &&& stamp_cell(row, 1) is Ok
            &&& after.get_collection_timestamp(user, name) == after.done(stamp_cell(row, 1)->Ok_0)
        }),
{
    let found = db.get_collection_id(name);
    let after = db.lock_for_read(user, name).db;
    assert(found.db.cache.ids[name] == id);
    assert(after.cache == found.db.cache);
    law_collection_time_is_kept(after, user, name);
}

/// After a lock for writing, the session answers with when the lock's row says the collection
/// was last modified, without a request.
pub proof fn law_time_after_write_lock(
    db: DbView,
    user: u32,
    name: Seq<char>,
    id: i32,
    row: RowView,
)
    requires
        db.lock_for_write(user, name).out is Ok,
        db.get_or_create_collection_id(name).out == Ok::<i32, StopView>(id),
        db.get_or_create_collection_id(name).db.lock_row(user, id, CollectionLock::Write).out
            == Ok::<Option<RowView>, StopView>(Some(row)),
    ensures
        ({
            let after = db.lock_for_write(user, name).db;
            &&& stamp_cell(row, 1) is Ok
            &&& after.get_collection_timestamp(user, name) == after.done(stamp_cell(row, 1)->Ok_0)
        }),
{
    let found = db.get_or_create_collection_id(name);
    let after = db.lock_for_write(user, name).db;
    assert(found.db.cache.ids[name] == id);
    assert(after.cache == found.db.cache);
    law_collection_time_is_kept(after, user, name);
}

/// What a lock told of a collection's time is what the session answers with from then on,
/// without a request.
pub proof fn law_collection_time_is_kept(db: DbView, user: u32, name: Seq<char>)
    requires
        db.cache.ids.contains_key(name),
        db.modified.contains_key((user, db.cache.ids[name])),
    ensures
        db.get_collection_timestamp(user, name) == db.done(
            db.modified[(user, db.cache.ids[name])],
        ),
{
}

/// Whatever modifies a collection comes out with the session's current time.
pub proof fn law_modified_is_now(
    db: DbView,
    user: u64,
    name: Seq<char>,
    id: i32,
    bso: PutView,
    bsos: Seq<Seq<char>>,
)
    ensures
        db.touch_collection(user as u32, id).out matches Ok(touch) ==> touch == db.timestamp,
        db.put_bso(user, name, bso).out matches Ok(touch) ==> touch == db.timestamp,
        db.delete_bso(user as u32, name, bso.id).out matches Ok(touch) ==> touch == db.timestamp,
        db.delete_bsos(user as u32, name, bsos).out matches Ok(touch) ==> touch == db.timestamp,
{
    let found = db.get_collection_id(name);
    if found.out is Ok {
        lemma_delete_each_timestamp(found.db, user as u32, name, found.out->Ok_0, bsos);
    }
}

/// Deleting objects leaves the clock alone.
proof fn lemma_delete_each_timestamp(
    db: DbView,
    user: u32,
    name: Seq<char>,
    id: i32,
    bsos: Seq<Seq<char>>,
)
    ensures
        db.delete_each(user, name, id, bsos).db.timestamp == db.timestamp,
    decreases bsos.len(),
{
    if bsos.len() > 0 {
        let looked = db.look_for(user, id, bsos[0]);
        if looked.out is Ok {
            let first = looked.db.delete_bso(user, name, bsos[0]);
            assert(first.db.timestamp == looked.db.timestamp);
            lemma_delete_each_timestamp(first.db, user, name, id, bsos.drop_first());
        }
    }
}

/// Rows of an id and a value are all read, each id has the value of its last row, and there is
/// no other id.
pub proof fn law_collected_rows<V>(
    rows: Seq<RowView>,
    read: spec_fn(RowView) -> Result<(i32, V), StopView>,
    by_id: Map<i32, V>,
)
    requires
        collect(rows, read) == Ok::<Map<i32, V>, StopView>(by_id),
    ensures
        forall|i: int| 0 <= i < rows.len() ==> (#[trigger] read(rows[i])) is Ok,
        forall|i: int|
            0 <= i < rows.len() ==> by_id.contains_key((#[trigger] read(rows[i]))->Ok_0.0),
        forall|id: i32| #[trigger]
            by_id.contains_key(id) ==> exists|i: int|
                {
                    &&& 0 <= i < rows.len()
                    &&& #[trigger] read(rows[i]) == Ok::<(i32, V), StopView>((id, by_id[id]))
                    &&& forall|j: int|
                        i < j < rows.len() ==> (#[trigger] read(rows[j]))->Ok_0.0 != id
                },
    decreases rows.len(),
{
    if rows.len() > 0 {
        let before = rows.drop_last();
        let last = rows.len() - 1;
        let sofar = collect(before, read)->Ok_0;
        let entry = read(rows.last())->Ok_0;
        law_collected_rows(before, read, sofar);
        assert(forall|i: int| 0 <= i < last ==> before[i] == rows[i]);
        assert forall|i: int| 0 <= i < rows.len() implies (#[trigger] read(rows[i])) is Ok by {
            if i < last {
                assert(read(before[i]) is Ok);
            }
        }
        assert forall|i: int| 0 <= i < rows.len() implies by_id.contains_key(
            (#[trigger] read(rows[i]))->Ok_0.0,
        ) by {
            if i < last {
                assert(sofar.contains_key(read(before[i])->Ok_0.0));
            }
        }
        assert forall|id: i32| #[trigger] by_id.contains_key(id) implies exists|i: int|
            {
                &&& 0 <= i < rows.len()
                &&& #[trigger] read(rows[i]) == Ok::<(i32, V), StopView>((id, by_id[id]))
                &&& forall|j: int|
                    i < j < rows.len() ==> (#[trigger] read(rows[j]))->Ok_0.0 != id
            } by {
            if id == entry.0 {
                assert(read(rows[last]) == Ok::<(i32, V), StopView>((id, by_id[id])));
            } else {
                assert(sofar.contains_key(id));
                let i = choose|i: int|
                    {
                        &&& 0 <= i < before.len()
                        &&& #[trigger] read(before[i]) == Ok::<(i32, V), StopView>(
                            (id, sofar[id]),
                        )
                        &&& forall|j: int|
                            i < j < before.len() ==> (#[trigger] read(before[j]))->Ok_0.0 != id
                    };
                assert(read(rows[i]) == Ok::<(i32, V), StopView>((id, by_id[id])));
                assert forall|j: int| i < j < rows.len() implies (#[trigger] read(
                    rows[j],
                ))->Ok_0.0 != id by {
                    if j < last {
                        assert(read(before[j])->Ok_0.0 != id);
                    }
                }
            }
        }
    }
}

/// Where no two collections have one name, each name has the value of its collection, and no
/// other name has any.
pub proof fn law_distinct_names_keep_all_values<V>(
    by_id: Map<i32, V>,
    names: Map<i32, Seq<char>>,
    by_name: Map<Seq<char>, V>,
)
    requires
        is_renaming(by_id, names, by_name),
        forall|a: i32, b: i32|
            #![trigger by_id.contains_key(a), by_id.contains_key(b)]
            by_id.contains_key(a) && by_id.contains_key(b) && names[a] == names[b] ==> a == b,
    ensures
        forall|id: i32| #[trigger]
            by_id.contains_key(id) ==> by_name.contains_key(names[id]) && by_name[names[id]]
                == by_id[id],
        forall|name: Seq<char>| #[trigger]
            by_name.contains_key(name) ==> exists|id: i32| #[trigger]
                by_id.contains_key(id) && names[id] == name,
{
    assert forall|id: i32| #[trigger] by_id.contains_key(id) implies by_name.contains_key(names[id])
        && by_name[names[id]] == by_id[id] by {
        let name = names[id];
        assert(by_name.contains_key(name));
        let other = choose|other: i32| #[trigger]
            by_id.contains_key(other) && names[other] == name && by_name[name] == by_id[other];
        assert(by_id.contains_key(other));
    }
}

/// Names that were looked up are those that the cache has from then on: to look them up again
/// sends nothing and gives the same.
pub proof fn law_names_are_cached(db: DbView, ids: Set<i32>, names: Map<i32, Seq<char>>)
    requires
        db.load_collection_names(ids).out == Ok::<Map<i32, Seq<char>>, StopView>(names),
        ids.subset_of(names.dom()),
    ensures
        ({
            let after = db.load_collection_names(ids).db;
            after.load_collection_names(ids) == after.done(names)
        }),
{
    let after = db.load_collection_names(ids).db;
    let cached = db.cache.names.restrict(ids);
    let uncached = ids.difference(db.cache.names.dom());
    if uncached != Set::<i32>::empty() {
        let sql = "SELECT collectionid, name FROM collections"@;
        let asked = db.sql(sql);
        let got = asked.db.execute(asked.out->Ok_0);
        lemma_learned_names_are_cached(
            got.db,
            ids,
            uncached,
            cached,
            got.out->Ok_0.rows,
        );
    }
    assert(names == after.cache.names.restrict(ids));
    assert(ids.difference(after.cache.names.dom()) =~= Set::<i32>::empty());
}

proof fn lemma_learned_names_are_cached(
    db: DbView,
    ids: Set<i32>,
    uncached: Set<i32>,
    names: Map<i32, Seq<char>>,
    rows: Seq<RowView>,
)
    requires
        uncached.subset_of(ids),
        names == db.cache.names.restrict(ids),
        db.learn_names(uncached, names, rows).out is Ok,
    ensures
        db.learn_names(uncached, names, rows).out->Ok_0 == db.learn_names(
            uncached,
            names,
            rows,
        ).db.cache.names.restrict(ids),
    decreases rows.len(),
{
    if rows.len() > 0 {
        if let (Ok(id), Ok(name)) = (must(i32_cell(rows[0], 0)), cell(rows[0], 1)) {
            if uncached.contains(id) {
                assert(names.insert(id, name) =~= db.cache_put(id, name).cache.names.restrict(ids));
                lemma_learned_names_are_cached(
                    db.cache_put(id, name),
                    ids,
                    uncached,
                    names.insert(id, name),
                    rows.drop_first(),
                );
            } else {
                lemma_learned_names_are_cached(db, ids, uncached, names, rows.drop_first());
            }
        }
    }
}

/// To delete no objects at all is an error, and sends nothing.
pub proof fn law_no_objects_to_delete(db: DbView, user: u32, name: Seq<char>)
    requires
        db.cache.ids.contains_key(name),
    ensures
        db.delete_bsos(user, name, Seq::empty()) == db.fail::<int>(ErrorView::BsoNotFound),
{
}

impl DbView {
    /// How many objects of that id a deletion finds.
    pub open spec fn deletion_count(self, user: u32, name: Seq<char>, bso: Seq<char>) -> Step<i64> {
        self.get_collection_id(name).and_then(
            |db: DbView, id: i32|
                db.touch_collection(user, id).and_then(
                    |db: DbView, _touch: int| db.delete_count(user, id, bso),
                ),
        )
    }
}

/// Deleting an object fails for want of it exactly where none is found, and else comes out with
/// the session's current time.
pub proof fn law_deletion_finds_the_object(
    db: DbView,
    user: u32,
    name: Seq<char>,
    bso: Seq<char>,
    count: i64,
)
    requires
        db.deletion_count(user, name, bso).out == Ok::<i64, StopView>(count),
    ensures
        db.delete_bso(user, name, bso).out == (if count == 0 {
            Err::<int, StopView>(StopView::Failed(ErrorView::BsoNotFound))
        } else {
            Ok(db.timestamp)
        }),
{
}

/// How many rows of that id there are among the ids of a collection.
pub open spec fn rows_of(ids: Set<Seq<char>>, bso: Seq<char>) -> i64 {
    if ids.contains(bso) {
        1
    } else {
        0
    }
}

/// A deletion that counts the rows of a collection's ids succeeds exactly where the object is
/// there. It leaves the other objects; to delete the same object again, in whichever session,
/// fails for want of it.
pub proof fn law_deleted_object_is_gone(
    db: DbView,
    again: DbView,
    user: u32,
    name: Seq<char>,
    bso: Seq<char>,
    ids: Set<Seq<char>>,
)
    requires
        db.deletion_count(user, name, bso).out == Ok::<i64, StopView>(rows_of(ids, bso)),
        again.deletion_count(user, name, bso).out == Ok::<i64, StopView>(
            rows_of(ids.remove(bso), bso),
        ),
    ensures
        db.delete_bso(user, name, bso).out is Ok <==> ids.contains(bso),
        db.delete_bso(user, name, bso).out == Err::<int, StopView>(
            StopView::Failed(ErrorView::BsoNotFound),
        ) <==> !ids.contains(bso),
        again.delete_bso(user, name, bso).out == Err::<int, StopView>(
            StopView::Failed(ErrorView::BsoNotFound),
        ),
        forall|other: Seq<char>|
            other != bso ==> #[trigger] rows_of(ids.remove(bso), other) == rows_of(ids, other),
{
    law_deletion_finds_the_object(db, user, name, bso, rows_of(ids, bso));
    law_deletion_finds_the_object(again, user, name, bso, rows_of(ids.remove(bso), bso));
}

} // verus!
