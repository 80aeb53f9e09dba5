//! How the operations on a collection come by its id.

use vstd::prelude::*;

use crate::conn::{ResultSetView, TransactionMode};
use crate::db::{CollectionLock, DbView, Step};
use crate::decimal::{decimal, natural};
use crate::error::{ErrorView, StopView};
use crate::read::QueryView;
use crate::results::{BsoView, IdsView, PageView, PostView};
use crate::statements::{
    asked, begun, heard, known, law_begin, law_statement, time_of, too_many,
};
use crate::write::PutView;

verus! {

/// A collection that was found is in the cache under its name, and of the session nothing but
/// the cache and the transaction changes.
pub proof fn law_found_is_known(db: DbView, name: Seq<char>)
    ensures
        db.get_collection_id(name).out matches Ok(id) ==> known(
            db.get_collection_id(name).db,
            name,
            id,
        ),
        db.get_or_create_collection_id(name).out matches Ok(id) ==> known(
            db.get_or_create_collection_id(name).db,
            name,
            id,
        ),
        db.get_collection_id(name).db.timestamp == db.timestamp,
        db.get_collection_id(name).db.locks == db.locks,
        db.get_collection_id(name).db.modified == db.modified,
        db.get_or_create_collection_id(name).db.timestamp == db.timestamp,
        db.get_or_create_collection_id(name).db.locks == db.locks,
        db.get_or_create_collection_id(name).db.modified == db.modified,
{
}

/// Asking when a collection was modified looks the collection up first: what comes then is what
/// comes where the collection is known, and a failure is what it ends with.
pub proof fn law_get_collection_timestamp_looks_up(
    db: DbView,
    user: u32,
    name: Seq<char>,
)
    ensures
        ({
            let found = db.get_collection_id(name);
            match found.out {
                Ok(_) => {
                    let then = found.db.get_collection_timestamp(user, name);
                    db.get_collection_timestamp(user, name) == then
                },
                Err(stop) => db.get_collection_timestamp(user, name) == (Step {
                    db: found.db,
                    out: Err::<int, StopView>(stop),
                }),
            }
        }),
{
    law_found_is_known(db, name);
}

/// Deleting a collection looks the collection up first: what comes then is what comes where the
/// collection is known, and a failure is what it ends with.
pub proof fn law_delete_collection_looks_up(
    db: DbView,
    user: u32,
    name: Seq<char>,
)
    ensures
        ({
            let found = db.get_collection_id(name);
            match found.out {
                Ok(_) => db.delete_collection(user, name) == found.db.delete_collection(user, name),
                Err(stop) => db.delete_collection(user, name) == (Step {
                    db: found.db,
                    out: Err::<int, StopView>(stop),
                }),
            }
        }),
{
    law_found_is_known(db, name);
}

/// Deleting an object looks the collection up first: what comes then is what comes where the
/// collection is known, and a failure is what it ends with.
pub proof fn law_delete_bso_looks_up(
    db: DbView,
    user: u32,
    name: Seq<char>,
    bso: Seq<char>,
)
    ensures
        ({
            let found = db.get_collection_id(name);
            match found.out {
                Ok(_) => db.delete_bso(user, name, bso) == found.db.delete_bso(user, name, bso),
                Err(stop) => db.delete_bso(user, name, bso) == (Step {
                    db: found.db,
                    out: Err::<int, StopView>(stop),
                }),
            }
        }),
{
    law_found_is_known(db, name);
}

/// Deleting objects looks the collection up first: what comes then is what comes where the
/// collection is known, and a failure is what it ends with.
pub proof fn law_delete_bsos_looks_up(
    db: DbView,
    user: u32,
    name: Seq<char>,
    bsos: Seq<Seq<char>>,
)
    ensures
        ({
            let found = db.get_collection_id(name);
            match found.out {
                Ok(_) => db.delete_bsos(user, name, bsos) == found.db.delete_bsos(user, name, bsos),
                Err(stop) => db.delete_bsos(user, name, bsos) == (Step {
                    db: found.db,
                    out: Err::<int, StopView>(stop),
                }),
            }
        }),
{
    law_found_is_known(db, name);
}

/// Listing objects looks the collection up first: what comes then is what comes where the
/// collection is known, and a failure is what it ends with.
pub proof fn law_get_bsos_looks_up(
    db: DbView,
    user: i32,
    name: Seq<char>,
    query: QueryView,
)
    ensures
        ({
            let found = db.get_collection_id(name);
            match found.out {
                Ok(_) => db.get_bsos(user, name, query) == found.db.get_bsos(user, name, query),
                Err(stop) => db.get_bsos(user, name, query) == (Step {
                    db: found.db,
                    out: Err::<PageView, StopView>(stop),
                }),
            }
        }),
{
    law_found_is_known(db, name);
}

/// Listing the ids of objects looks the collection up first: what comes then is what comes where
/// the collection is known, and a failure is what it ends with.
pub proof fn law_get_bso_ids_looks_up(
    db: DbView,
    user: i32,
    name: Seq<char>,
    query: QueryView,
)
    ensures
        ({
            let found = db.get_collection_id(name);
            match found.out {
                Ok(_) => db.get_bso_ids(user, name, query) == found.db.get_bso_ids(
                    user,
                    name,
                    query,
                ),
                Err(stop) => db.get_bso_ids(user, name, query) == (Step {
                    db: found.db,
                    out: Err::<IdsView, StopView>(stop),
                }),
            }
        }),
{
    law_found_is_known(db, name);
}

/// Getting an object looks the collection up first: what comes then is what comes where the
/// collection is known, and a failure is what it ends with.
pub proof fn law_get_bso_looks_up(
    db: DbView,
    user: u64,
    name: Seq<char>,
    bso: Seq<char>,
)
    ensures
        ({
            let found = db.get_collection_id(name);
            match found.out {
                Ok(_) => db.get_bso(user, name, bso) == found.db.get_bso(user, name, bso),
                Err(stop) => db.get_bso(user, name, bso) == (Step {
                    db: found.db,
                    out: Err::<Option<BsoView>, StopView>(stop),
                }),
            }
        }),
{
    law_found_is_known(db, name);
}

/// Asking when an object was modified looks the collection up first: what comes then is what
/// comes where the collection is known, and a failure is what it ends with.
pub proof fn law_get_bso_timestamp_looks_up(
    db: DbView,
    user: u32,
    name: Seq<char>,
    bso: Seq<char>,
)
    ensures
        ({
            let found = db.get_collection_id(name);
            match found.out {
                Ok(_) => db.get_bso_timestamp(user, name, bso) == found.db.get_bso_timestamp(
                    user,
                    name,
                    bso,
                ),
                Err(stop) => db.get_bso_timestamp(user, name, bso) == (Step {
                    db: found.db,
                    out: Err::<int, StopView>(stop),
                }),
            }
        }),
{
    law_found_is_known(db, name);
}

/// Locking a collection for writing looks the collection up first, and creates it where it does
/// not exist: what comes then is what comes where the collection is known, and a failure is what
/// it ends with.
pub proof fn law_lock_for_write_looks_up(
    db: DbView,
    user: u32,
    name: Seq<char>,
)
    ensures
        ({
            let found = db.get_or_create_collection_id(name);
            match found.out {
                Ok(_) => db.lock_for_write(user, name) == found.db.lock_for_write(user, name),
                Err(stop) => db.lock_for_write(user, name) == (Step {
                    db: found.db,
                    out: Err::<(), StopView>(stop),
                }),
            }
        }),
{
    law_found_is_known(db, name);
}

/// Putting an object looks the collection up first, and creates it where it does not exist: what
/// comes then is what comes where the collection is known, and a failure is what it ends with.
pub proof fn law_put_bso_looks_up(
    db: DbView,
    user: u64,
    name: Seq<char>,
    bso: PutView,
)
    ensures
        ({
            let found = db.get_or_create_collection_id(name);
            match found.out {
                Ok(_) => db.put_bso(user, name, bso) == found.db.put_bso(user, name, bso),
                Err(stop) => db.put_bso(user, name, bso) == (Step {
                    db: found.db,
                    out: Err::<int, StopView>(stop),
                }),
            }
        }),
{
    law_found_is_known(db, name);
}

/// Posting objects looks the collection up first, and creates it where it does not exist: what
/// comes then is what comes where the collection is known, and a failure is what it ends with.
pub proof fn law_post_bsos_looks_up(
    db: DbView,
    user: u64,
    name: Seq<char>,
    bsos: Seq<PutView>,
    failed: Map<Seq<char>, Seq<char>>,
)
    ensures
        ({
            let found = db.get_or_create_collection_id(name);
            match found.out {
                Ok(_) => db.post_bsos(user, name, bsos, failed) == found.db.post_bsos(
                    user,
                    name,
                    bsos,
                    failed,
                ),
                Err(stop) => db.post_bsos(user, name, bsos, failed) == (Step {
                    db: found.db,
                    out: Err::<PostView, StopView>(stop),
                }),
            }
        }),
{
    law_found_is_known(db, name);
}

/// To lock for reading looks the collection up first, as the others do, unless there is none.
pub proof fn law_lock_for_read_looks_up(db: DbView, user: u32, name: Seq<char>)
    ensures
        (match db.get_collection_id(name).out {
            Ok(_) => db.lock_for_read(user, name) == db.get_collection_id(name).db.lock_for_read(
                user,
                name,
            ),
            Err(StopView::Failed(ErrorView::CollectionNotFound)) => true,
            Err(stop) => db.lock_for_read(user, name) == (Step {
                db: db.get_collection_id(name).db,
                out: Err::<(), StopView>(stop),
            }),
        }),
{
    law_found_is_known(db, name);
}

/// A collection that does not exist is locked for reading as the collection of the id 0, once.
pub proof fn law_locking_nothing(db: DbView, user: u32, name: Seq<char>, result: ResultSetView)
    requires
        db.get_collection_id(name).out == Err::<i32, StopView>(
            StopView::Failed(ErrorView::CollectionNotFound),
        ),
    ensures
        ({
            let missed = db.get_collection_id(name).db;
            let after = db.lock_for_read(user, name);
            let n = missed.conn.sent.len() as int;
            &&& missed.locks.contains_key((user, 0i32)) ==> after == (Step {
                db: missed,
                out: Ok::<(), StopView>(()),
            })
            &&& !missed.locks.contains_key((user, 0i32)) && n < missed.conn.answers.len()
                && missed.conn.answers[n] is Reply && heard(
                begun(missed, TransactionMode::ReadOnly),
            ) == Some(result) ==> {
                let sent = asked(
                    begun(missed, TransactionMode::ReadOnly),
                    "SELECT CURRENT_TIMESTAMP() as now, last_modified FROM user_collections WHERE userid=@userid AND collection=@collectionid"@,
                    Map::empty().insert("userid"@, natural(user as nat)).insert(
                        "collectionid"@,
                        "0"@,
                    ),
                    Map::empty(),
                );
                let locks = missed.locks.insert((user, 0i32), CollectionLock::Read);
                &&& result.rows.len() == 0 ==> after == (Step {
                    db: DbView { locks, ..sent },
                    out: Ok::<(), StopView>(()),
                })
                &&& result.rows.len() == 1 && result.rows[0].len() > 1 ==> after == (match time_of(
                    result.rows[0][1],
                ) {
                    Ok(modified) => Step {
                        db: DbView {
                            locks,
                            modified: missed.modified.insert((user, 0i32), modified),
                            ..sent
                        },
                        out: Ok::<(), StopView>(()),
                    },
                    Err(stop) => Step { db: sent, out: Err(stop) },
                })
                &&& result.rows.len() > 1 ==> after == (Step {
                    db: sent,
                    out: Err::<(), StopView>(too_many()),
                })
            }
        }),
{
    let missed = db.get_collection_id(name).db;
    let n = missed.conn.sent.len() as int;
    reveal_strlit("0");
    assert(decimal(0) =~= "0"@) by {
        reveal_with_fuel(natural, 2);
    }
    if !missed.locks.contains_key((user, 0i32)) && n < missed.conn.answers.len()
        && missed.conn.answers[n] is Reply && heard(begun(missed, TransactionMode::ReadOnly))
        == Some(result) {
        law_begin(missed, false);
        assert(missed.begin(false).db == begun(missed, TransactionMode::ReadOnly));
        law_statement(
            begun(missed, TransactionMode::ReadOnly),
            "SELECT CURRENT_TIMESTAMP() as now, last_modified FROM user_collections WHERE userid=@userid AND collection=@collectionid"@,
            Map::empty().insert("userid"@, natural(user as nat)).insert("collectionid"@, "0"@),
            Map::empty(),
            result,
        );
    }
}

/// A collection that is locked is not locked for reading again, and one that is locked for
/// reading is not locked for writing: nothing is sent.
pub proof fn law_locked_already(db: DbView, user: u32, name: Seq<char>, id: i32)
    requires
        known(db, name, id),
        db.locks.contains_key((user, id)),
    ensures
        db.lock_for_read(user, name) == (Step { db, out: Ok::<(), StopView>(()) }),
        db.locks[(user, id)] is Read ==> db.lock_for_write(user, name) == (Step {
            db,
            out: Err::<(), StopView>(
                StopView::Failed(ErrorView::Internal("Can't escalate read-lock to write-lock"@)),
            ),
        }),
{
}

} // verus!
