//! What an operation does where Spanner refuses a request.

use vstd::prelude::*;

use crate::conn::{AnswerView, RowView};
use crate::db::{DbView, Step};
use crate::decimal::natural;
use crate::error::{ErrorView, StopView};
use crate::names::{collect, number_row, stamp_row};
use crate::read::QueryView;
use crate::rows::{cell, i32_cell, must};
use crate::write::PutView;

verus! {

/// No request follows on one that was refused, and the operation fails with what Spanner said.
pub open spec fn ends_at_refusal<T>(db: DbView, after: Step<T>) -> bool {
    let answers = db.conn.answers;
    &&& after.db.conn.answers == answers
    &&& db.conn.sent.len() <= after.db.conn.sent.len()
    &&& forall|k: int|
        db.conn.sent.len() <= k < after.db.conn.sent.len() && k < answers.len() ==> (
        #[trigger] answers[k] matches AnswerView::Error(text) ==> {
            &&& k == after.db.conn.sent.len() - 1
            &&& after.out == Err::<T, StopView>(StopView::Failed(ErrorView::Spanner(text)))
        })
}

/// What ends at a refusal in each of its parts ends at one as a whole.
proof fn lemma_then<T, U>(db: DbView, first: Step<T>, after: Step<U>)
    requires
        ends_at_refusal(db, first),
        match first.out {
            Ok(_) => ends_at_refusal(first.db, after),
            Err(stop) => after == (Step { db: first.db, out: Err::<U, StopView>(stop) }),
        },
    ensures
        ends_at_refusal(db, after),
{
}

proof fn lemma_learn(
    db: DbView,
    uncached: Set<i32>,
    names: Map<i32, Seq<char>>,
    rows: Seq<RowView>,
)
    ensures
        db.learn_names(uncached, names, rows).db.conn == db.conn,
        db.learn_names(uncached, names, rows).out is Err ==> db.learn_names(
            uncached,
            names,
            rows,
        ).out == Err::<Map<i32, Seq<char>>, StopView>(StopView::Fault),
    decreases rows.len(),
{
    if rows.len() > 0 {
        if let (Ok(id), Ok(name)) = (must(i32_cell(rows[0], 0)), cell(rows[0], 1)) {
            if uncached.contains(id) {
                lemma_learn(
                    db.cache_put(id, name),
                    uncached,
                    names.insert(id, name),
                    rows.drop_first(),
                );
            } else {
                lemma_learn(db, uncached, names, rows.drop_first());
            }
        }
    }
}

proof fn lemma_delete_row(db: DbView, user: u32, id: i32, bso: Seq<char>, touch: int)
    ensures
        ends_at_refusal(db, db.delete_row(user, id, bso, touch)),
{
}

proof fn lemma_look_for(db: DbView, user: u32, id: i32, bso: Seq<char>)
    ensures
        ends_at_refusal(db, db.look_for(user, id, bso)),
{
}

proof fn lemma_look_at(db: DbView, userid: Seq<char>, id: i32, bso: Seq<char>)
    ensures
        ends_at_refusal(db, db.look_at(userid, id, bso)),
{
}

proof fn lemma_update(db: DbView, userid: Seq<char>, id: i32, bso: PutView)
    ensures
        ends_at_refusal(db, db.update_bso(userid, id, bso)),
{
}

proof fn lemma_insert(db: DbView, userid: Seq<char>, id: i32, bso: PutView)
    ensures
        ends_at_refusal(db, db.insert_bso(userid, id, bso)),
{
}

proof fn lemma_write(db: DbView, userid: Seq<char>, id: i32, bso: PutView)
    ensures
        ends_at_refusal(db, db.write_bso(userid, id, bso)),
{
    let looked = db.look_at(userid, id, bso.id);
    lemma_look_at(db, userid, id, bso.id);
    lemma_update(looked.db, userid, id, bso);
    lemma_insert(looked.db, userid, id, bso);
    lemma_then(db, looked, db.write_bso(userid, id, bso));
}

/// Looking a collection up ends at a refusal.
pub proof fn law_refused_get_collection_id(db: DbView, name: Seq<char>)
    ensures
        ends_at_refusal(db, db.get_collection_id(name)),
{
}

/// Creating a collection ends at a refusal.
pub proof fn law_refused_create_collection(db: DbView, name: Seq<char>)
    ensures
        ends_at_refusal(db, db.create_collection(name)),
{
}

/// Looking a collection up or creating it ends at a refusal.
pub proof fn law_refused_get_or_create_collection_id(db: DbView, name: Seq<char>)
    ensures
        ends_at_refusal(db, db.get_or_create_collection_id(name)),
{
}

/// Asking when a collection was modified ends at a refusal.
pub proof fn law_refused_get_collection_timestamp(db: DbView, user: u32, name: Seq<char>)
    ensures
        ends_at_refusal(db, db.get_collection_timestamp(user, name)),
{
}

/// Touching a collection ends at a refusal.
pub proof fn law_refused_touch_collection(db: DbView, user: u32, id: i32)
    ensures
        ends_at_refusal(db, db.touch_collection(user, id)),
{
}

/// Beginning a transaction ends at a refusal.
pub proof fn law_refused_begin(db: DbView, for_write: bool)
    ensures
        ends_at_refusal(db, db.begin(for_write)),
{
}

/// Committing a transaction ends at a refusal.
pub proof fn law_refused_commit(db: DbView)
    ensures
        ends_at_refusal(db, db.commit()),
{
}

/// Rolling a transaction back ends at a refusal.
pub proof fn law_refused_rollback(db: DbView)
    ensures
        ends_at_refusal(db, db.rollback()),
{
}

/// Locking a collection for reading ends at a refusal.
pub proof fn law_refused_lock_for_read(db: DbView, user: u32, name: Seq<char>)
    ensures
        ends_at_refusal(db, db.lock_for_read(user, name)),
{
}

/// Locking a collection for writing ends at a refusal.
pub proof fn law_refused_lock_for_write(db: DbView, user: u32, name: Seq<char>)
    ensures
        ends_at_refusal(db, db.lock_for_write(user, name)),
{
}

/// Looking names of collections up ends at a refusal.
pub proof fn law_refused_load_collection_names(db: DbView, ids: Set<i32>)
    ensures
        ends_at_refusal(db, db.load_collection_names(ids)),
{
    let cached = db.cache.names.restrict(ids);
    let uncached = ids.difference(db.cache.names.dom());
    let made = db.sql("SELECT collectionid, name FROM collections"@);
    if uncached != Set::<i32>::empty() && made.out is Ok {
        let got = made.db.execute(made.out->Ok_0);
        if got.out is Ok {
            lemma_learn(got.db, uncached, cached, got.out->Ok_0.rows);
        }
    }
}

/// Asking when a storage was modified ends at a refusal.
pub proof fn law_refused_get_storage_timestamp(db: DbView, user: u32)
    ensures
        ends_at_refusal(db, db.get_storage_timestamp(user)),
{
}

/// Asking how much payload a storage holds ends at a refusal.
pub proof fn law_refused_get_storage_usage(db: DbView, user: u32)
    ensures
        ends_at_refusal(db, db.get_storage_usage(user)),
{
}

/// Deleting a storage ends at a refusal.
pub proof fn law_refused_delete_storage(db: DbView, user: u32)
    ensures
        ends_at_refusal(db, db.delete_storage(user)),
{
}

/// Deleting a collection ends at a refusal.
pub proof fn law_refused_delete_collection(db: DbView, user: u32, name: Seq<char>)
    ensures
        ends_at_refusal(db, db.delete_collection(user, name)),
{
}

/// Deleting an object ends at a refusal.
pub proof fn law_refused_delete_bso(db: DbView, user: u32, name: Seq<char>, bso: Seq<char>)
    ensures
        ends_at_refusal(db, db.delete_bso(user, name, bso)),
{
    law_refused_get_collection_id(db, name);
    let found = db.get_collection_id(name);
    if let Ok(id) = found.out {
        law_refused_touch_collection(found.db, user, id);
        let touched = found.db.touch_collection(user, id);
        if let Ok(touch) = touched.out {
            lemma_delete_row(touched.db, user, id, bso, touch);
        }
        lemma_then(found.db, touched, db.delete_bso(user, name, bso));
    }
    lemma_then(db, found, db.delete_bso(user, name, bso));
}

/// Listing objects ends at a refusal.
pub proof fn law_refused_get_bsos(db: DbView, user: i32, name: Seq<char>, query: QueryView)
    ensures
        ends_at_refusal(db, db.get_bsos(user, name, query)),
{
}

/// Listing ids ends at a refusal.
pub proof fn law_refused_get_bso_ids(db: DbView, user: i32, name: Seq<char>, query: QueryView)
    ensures
        ends_at_refusal(db, db.get_bso_ids(user, name, query)),
{
}

/// Getting an object ends at a refusal.
pub proof fn law_refused_get_bso(db: DbView, user: u64, name: Seq<char>, bso: Seq<char>)
    ensures
        ends_at_refusal(db, db.get_bso(user, name, bso)),
{
}

/// Asking when an object was modified ends at a refusal.
pub proof fn law_refused_get_bso_timestamp(db: DbView, user: u32, name: Seq<char>, bso: Seq<char>)
    ensures
        ends_at_refusal(db, db.get_bso_timestamp(user, name, bso)),
{
}

/// Putting an object ends at a refusal.
pub proof fn law_refused_put_bso(db: DbView, user: u64, name: Seq<char>, bso: PutView)
    ensures
        ends_at_refusal(db, db.put_bso(user, name, bso)),
{
    law_refused_get_or_create_collection_id(db, name);
    let found = db.get_or_create_collection_id(name);
    if let Ok(id) = found.out {
        law_refused_touch_collection(found.db, user as u32, id);
        let touched = found.db.touch_collection(user as u32, id);
        if touched.out is Ok {
            lemma_write(touched.db, natural(user as nat), id, bso);
        }
        lemma_then(found.db, touched, db.put_bso(user, name, bso));
    }
    lemma_then(db, found, db.put_bso(user, name, bso));
}

proof fn lemma_delete_each(db: DbView, user: u32, name: Seq<char>, id: i32, bsos: Seq<Seq<char>>)
    ensures
        ends_at_refusal(db, db.delete_each(user, name, id, bsos)),
    decreases bsos.len(),
{
    let after = db.delete_each(user, name, id, bsos);
    if bsos.len() > 0 {
        let looked = db.look_for(user, id, bsos[0]);
        lemma_look_for(db, user, id, bsos[0]);
        if looked.out is Ok {
            let first = looked.db.delete_bso(user, name, bsos[0]);
            law_refused_delete_bso(looked.db, user, name, bsos[0]);
            if first.out is Ok {
                lemma_delete_each(first.db, user, name, id, bsos.drop_first());
            }
            lemma_then(looked.db, first, after);
        }
        lemma_then(db, looked, after);
    }
}

/// Deleting objects ends at a refusal.
pub proof fn law_refused_delete_bsos(
    db: DbView,
    user: u32,
    name: Seq<char>,
    bsos: Seq<Seq<char>>,
)
    ensures
        ends_at_refusal(db, db.delete_bsos(user, name, bsos)),
{
    law_refused_get_collection_id(db, name);
    let after = db.delete_bsos(user, name, bsos);
    let found = db.get_collection_id(name);
    if let Ok(id) = found.out {
        lemma_delete_each(found.db, user, name, id, bsos);
        let gone = found.db.delete_each(user, name, id, bsos);
        if gone.out is Ok {
            law_refused_touch_collection(gone.db, user, id);
        }
        lemma_then(found.db, gone, after);
    }
    lemma_then(db, found, after);
}

proof fn lemma_by_collection<V>(
    db: DbView,
    sql: Seq<char>,
    user: u32,
    read: spec_fn(RowView) -> Result<(i32, V), StopView>,
)
    ensures
        ends_at_refusal(db, db.by_collection(sql, user, read)),
{
    let asked = db.user_sql(sql, user);
    let after = db.by_collection(sql, user, read);
    if let Ok(result) = asked.out {
        let rows = asked.db.read(collect(result.rows, read));
        if let Ok(by_id) = rows.out {
            law_refused_load_collection_names(rows.db, by_id.dom());
            let loaded = rows.db.load_collection_names(by_id.dom());
            lemma_then(rows.db, loaded, after);
        }
        lemma_then(asked.db, rows, after);
    }
    lemma_then(db, asked, after);
}

/// Asking for the figures of a user's collections ends at a refusal.
pub proof fn law_refused_figures(db: DbView, user: u32)
    ensures
        ends_at_refusal(db, db.get_collection_timestamps(user)),
        ends_at_refusal(db, db.get_collection_counts(user)),
        ends_at_refusal(db, db.get_collection_usage(user)),
{
    lemma_by_collection(
        db,
        "SELECT collection, last_modified FROM user_collections WHERE userid=@userid"@,
        user,
        |row: RowView| stamp_row(row),
    );
    lemma_by_collection(
        db,
        "SELECT collection, COUNT(collection) FROM bso WHERE userid=@userid AND ttl > CURRENT_TIMESTAMP() GROUP BY collection"@,
        user,
        |row: RowView| number_row(row),
    );
    lemma_by_collection(
        db,
        "SELECT collection, SUM(LENGTH(payload)) FROM bso WHERE userid=@userid AND ttl > CURRENT_TIMESTAMP() GROUP BY collection"@,
        user,
        |row: RowView| number_row(row),
    );
}

} // verus!
